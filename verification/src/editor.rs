//! The command input line: text, a cursor counted in characters, word motions, the history
//! suggestion shown after the cursor, and the reading of hex input.
use vstd::prelude::*;

use crate::history::{completes, CommandHistory};
use crate::text::{chars_of, is_whitespace, push_str, string_from_chars, whitespace};

verus! {

/// Whether a character is alphabetic or numeric (`char::is_alphanumeric`).
pub uninterp spec fn alphanumeric(c: char) -> bool;

/// Calls `char::is_alphanumeric`. Claims the named result, and that among ASCII characters
/// exactly the letters and digits are alphanumeric.
#[verifier::external_body]
pub(crate) fn is_alphanumeric(c: char) -> (b: bool)
    ensures
        b == alphanumeric(c),
        (c as u32) < 128 ==> (b <==> ('0' <= c <= '9' || 'a' <= c <= 'z' || 'A' <= c <= 'Z')),
{
    c.is_alphanumeric()
}

/// The value of an ASCII hexadecimal digit.
pub open spec fn hex_value(c: char) -> Option<u8> {
    if '0' <= c <= '9' {
        Some((c as u32 - '0' as u32) as u8)
    } else if 'a' <= c <= 'f' {
        Some((c as u32 - 'a' as u32 + 10) as u8)
    } else if 'A' <= c <= 'F' {
        Some((c as u32 - 'A' as u32 + 10) as u8)
    } else {
        None
    }
}

/// What `u8::from_str_radix(s, 16)` gives for text of one or two characters: an optional `+`
/// followed by hex digits, their value; anything else nothing.
pub open spec fn radix16(s: Seq<char>) -> Option<u8> {
    if s.len() == 2 && s[0] == '+' {
        hex_value(s[1])
    } else if s.len() == 2 {
        match (hex_value(s[0]), hex_value(s[1])) {
            (Some(h), Some(l)) => Some((h * 16 + l) as u8),
            _ => None,
        }
    } else if s.len() == 1 {
        hex_value(s[0])
    } else {
        None
    }
}

/// Every hex digit that the hex view writes, in lower or upper case, is read back as its value.
pub proof fn lemma_hex_digit_value(d: nat)
    requires
        d < 16,
    ensures
        hex_value(crate::hex::hex_digit(d)) == Some(d as u8),
        hex_value(crate::text::ascii_upper(seq![crate::hex::hex_digit(d)])[0]) == Some(d as u8),
{
    let c = crate::hex::hex_digit(d);
    if d < 10 {
        assert((48 + d) as u32 == 48 + d);
        assert(c as u32 == 48 + d) by {
            assert(c == ((48 + d) as u32) as char);
        }
    } else {
        assert(c as u32 == 87 + d) by {
            assert(c == ((87 + d) as u32) as char);
        }
        let u = ((c as u32) - 32) as char;
        assert(u as u32 == 55 + d);
    }
}

/// A byte written as two hex digits by the hex view, in lower or upper case, is read back by
/// the hex input as that byte: the two readers agree on every digit.
pub proof fn law_hex_pairs_read_back(b: u8)
    ensures
        radix16(crate::hex::byte_hex(b)) == Some(b),
        radix16(crate::text::ascii_upper(crate::hex::byte_hex(b))) == Some(b),
{
    let h = (b / 16) as nat;
    let l = (b % 16) as nat;
    lemma_hex_digit_value(h);
    lemma_hex_digit_value(l);
    let s = crate::hex::byte_hex(b);
    let u = crate::text::ascii_upper(s);
    assert(u[0] == crate::text::ascii_upper(seq![s[0]])[0]);
    assert(u[1] == crate::text::ascii_upper(seq![s[1]])[0]);
    assert(s[0] != '+');
    assert(u[0] != '+');
    assert(h * 16 + l == b);
}

/// The value of a hexadecimal digit character.
fn hex_digit_value(c: char) -> (r: Option<u8>)
    ensures
        r == hex_value(c),
{
    if '0' <= c && c <= '9' {
        Some((c as u32 - '0' as u32) as u8)
    } else if 'a' <= c && c <= 'f' {
        Some((c as u32 - 'a' as u32 + 10) as u8)
    } else if 'A' <= c && c <= 'F' {
        Some((c as u32 - 'A' as u32 + 10) as u8)
    } else {
        None
    }
}

/// Reads one or two characters as `u8::from_str_radix(s, 16)` does: an optional `+` sign, then
/// only hex digits, read as a number.
fn parse_hex_pair(s: &str) -> (r: Option<u8>)
    requires
        1 <= s@.len() <= 2,
    ensures
        r == radix16(s@),
{
    let c = chars_of(s);
    if c.len() == 2 && c[0] == '+' {
        hex_digit_value(c[1])
    } else if c.len() == 2 {
        match (hex_digit_value(c[0]), hex_digit_value(c[1])) {
            (Some(h), Some(l)) => Some(h * 16 + l),
            _ => None,
        }
    } else {
        hex_digit_value(c[0])
    }
}

/// The input line: its text, and the cursor as a character index (it may lie past the end
/// after a mouse click, as the click clamps to the text's byte length).
#[derive(Debug)]
pub struct InputLine {
    pub text: String,
    pub cursor: usize,
}

/// The smaller of two integers.
pub open spec fn min_int(a: int, b: int) -> int {
    if a <= b {
        a
    } else {
        b
    }
}

/// The text after typing `c` at `cursor` (at the end when the cursor lies past it).
pub open spec fn inserted(t: Seq<char>, cursor: int, c: char) -> Seq<char> {
    let p = min_int(cursor, t.len() as int);
    t.take(p).push(c) + t.skip(p)
}

/// The text after a backspace at `cursor` (> 0): the character before the cursor goes, if the
/// cursor is within the text.
pub open spec fn backspaced(t: Seq<char>, cursor: int) -> Seq<char> {
    let end = min_int(cursor, t.len() as int);
    let start = min_int(cursor - 1, t.len() as int);
    t.take(start) + t.skip(end)
}

/// Typing a character and then a backspace gives back the text, when the cursor was within
/// it.
pub proof fn law_backspace_undoes_insert(t: Seq<char>, cursor: int, c: char)
    requires
        0 <= cursor <= t.len(),
    ensures
        backspaced(inserted(t, cursor, c), cursor + 1) == t,
{
    let u = inserted(t, cursor, c);
    assert(u.take(cursor) =~= t.take(cursor));
    assert(u.skip(cursor + 1) =~= t.skip(cursor));
    assert(t.take(cursor) + t.skip(cursor) =~= t);
}

/// Start of the word before `pos`: back over non-word characters, then over word characters.
pub open spec fn word_left(t: Seq<char>, pos: int) -> int
    decreases pos,
{
    if pos <= 0 {
        0
    } else if !alphanumeric(t[pos - 1]) {
        word_left(t, pos - 1)
    } else {
        word_start(t, pos)
    }
}

/// Start of the run of word characters that ends at `pos`.
pub open spec fn word_start(t: Seq<char>, pos: int) -> int
    decreases pos,
{
    if pos <= 0 {
        0
    } else if alphanumeric(t[pos - 1]) {
        word_start(t, pos - 1)
    } else {
        pos
    }
}

/// Start of the next word after `pos`: forward over word characters, then over the others.
pub open spec fn word_right(t: Seq<char>, pos: int) -> int
    decreases t.len() - pos,
{
    if pos >= t.len() {
        t.len() as int
    } else if alphanumeric(t[pos]) {
        word_right(t, pos + 1)
    } else {
        word_gap_end(t, pos)
    }
}

/// End of the run of non-word characters that starts at `pos`.
pub open spec fn word_gap_end(t: Seq<char>, pos: int) -> int
    decreases t.len() - pos,
{
    if pos >= t.len() {
        t.len() as int
    } else if !alphanumeric(t[pos]) {
        word_gap_end(t, pos + 1)
    } else {
        pos
    }
}

proof fn lemma_word_start_bounds(t: Seq<char>, pos: int)
    requires
        0 <= pos <= t.len(),
    ensures
        0 <= word_start(t, pos) <= pos,
    decreases pos,
{
    if pos > 0 && alphanumeric(t[pos - 1]) {
        lemma_word_start_bounds(t, pos - 1);
    }
}

proof fn lemma_word_left_bounds(t: Seq<char>, pos: int)
    requires
        0 <= pos <= t.len(),
    ensures
        0 <= word_left(t, pos) <= pos,
    decreases pos,
{
    if pos > 0 {
        if !alphanumeric(t[pos - 1]) {
            lemma_word_left_bounds(t, pos - 1);
        } else {
            lemma_word_start_bounds(t, pos);
        }
    }
}

impl InputLine {
    /// An empty line.
    pub fn new() -> (l: Self)
        ensures
            l.text@ == Seq::<char>::empty(),
            l.cursor == 0,
    {
        InputLine { text: String::new(), cursor: 0 }
    }

    /// Inserts `c` at the cursor (at the end when the cursor lies past it) and moves the
    /// cursor after it.
    pub fn insert_char(&mut self, c: char)
        requires
            old(self).cursor < usize::MAX,
        ensures
            final(self).text@ == inserted(old(self).text@, old(self).cursor as int, c),
            final(self).cursor == old(self).cursor + 1,
    {
        let chars = chars_of(self.text.as_str());
        let p = if self.cursor < chars.len() {
            self.cursor
        } else {
            chars.len()
        };
        let mut out: Vec<char> = Vec::new();
        let mut i: usize = 0;
        while i < p
            invariant
                p <= chars@.len(),
                i <= p,
                out@ == chars@.take(i as int),
            decreases p - i,
        {
            out.push(chars[i]);
            assert(chars@.take(i + 1) =~= chars@.take(i as int).push(chars@[i as int]));
            i = i + 1;
        }
        out.push(c);
        let ghost head = out@;
        while i < chars.len()
            invariant
                p <= i <= chars@.len(),
                out@ == head + chars@.subrange(p as int, i as int),
            decreases chars.len() - i,
        {
            out.push(chars[i]);
            assert(chars@.subrange(p as int, i + 1) =~= chars@.subrange(p as int, i as int).push(
                chars@[i as int],
            ));
            i = i + 1;
        }
        assert(out@ =~= chars@.take(p as int).push(c) + chars@.skip(p as int));
        self.text = string_from_chars(&out);
        self.cursor = self.cursor + 1;
    }

    /// Removes the characters between `from` and `to` (character indices, `from <= to <= len`).
    fn remove_range(&mut self, from: usize, to: usize)
        requires
            from <= to <= old(self).text@.len(),
        ensures
            final(self).text@ == old(self).text@.take(from as int) + old(self).text@.skip(to as int),
            final(self).cursor == old(self).cursor,
    {
        let chars = chars_of(self.text.as_str());
        let mut out: Vec<char> = Vec::new();
        let mut i: usize = 0;
        while i < from
            invariant
                from <= to <= chars@.len(),
                i <= from,
                out@ == chars@.take(i as int),
            decreases from - i,
        {
            out.push(chars[i]);
            assert(chars@.take(i + 1) =~= chars@.take(i as int).push(chars@[i as int]));
            i = i + 1;
        }
        let ghost head = out@;
        let mut j: usize = to;
        while j < chars.len()
            invariant
                to <= j <= chars@.len(),
                out@ == head + chars@.subrange(to as int, j as int),
            decreases chars.len() - j,
        {
            out.push(chars[j]);
            assert(chars@.subrange(to as int, j + 1) =~= chars@.subrange(to as int, j as int).push(
                chars@[j as int],
            ));
            j = j + 1;
        }
        assert(out@ =~= chars@.take(from as int) + chars@.skip(to as int));
        self.text = string_from_chars(&out);
    }

    /// Removes the character before the cursor and moves the cursor back; nothing at the
    /// start. (Past the end, only the cursor moves until it reaches the text.)
    pub fn backspace(&mut self)
        ensures
            old(self).cursor == 0 ==> *final(self) == *old(self),
            old(self).cursor > 0 ==> {
                &&& final(self).text@ == backspaced(old(self).text@, old(self).cursor as int)
                &&& final(self).cursor == old(self).cursor - 1
            },
    {
        if self.cursor > 0 {
            let n = crate::display::char_count(self.text.as_str());
            let end = if self.cursor < n {
                self.cursor
            } else {
                n
            };
            let start = if self.cursor - 1 < n {
                self.cursor - 1
            } else {
                n
            };
            self.remove_range(start, end);
            self.cursor = self.cursor - 1;
        }
    }

    /// Removes the character at the cursor; nothing at or past the end.
    pub fn delete(&mut self)
        ensures
            old(self).cursor < old(self).text@.len() ==> final(self).text@ == old(self).text@.remove(
                old(self).cursor as int,
            ),
            old(self).cursor >= old(self).text@.len() ==> final(self).text@ == old(self).text@,
            final(self).cursor == old(self).cursor,
    {
        let n = crate::display::char_count(self.text.as_str());
        if self.cursor < n {
            self.remove_range(self.cursor, self.cursor + 1);
            assert(old(self).text@.take(old(self).cursor as int) + old(self).text@.skip(
                old(self).cursor + 1,
            ) =~= old(self).text@.remove(old(self).cursor as int));
        }
    }

    /// One character left, stopping at the start.
    pub fn cursor_left(&mut self)
        ensures
            final(self).text == old(self).text,
            final(self).cursor == if old(self).cursor > 0 {
                old(self).cursor - 1
            } else {
                0
            },
    {
        if self.cursor > 0 {
            self.cursor = self.cursor - 1;
        }
    }

    /// One character right, stopping at the end.
    pub fn cursor_right(&mut self)
        requires
            old(self).cursor < usize::MAX,
        ensures
            final(self).text == old(self).text,
            final(self).cursor == min_int(old(self).cursor + 1, old(self).text@.len() as int),
    {
        let n = crate::display::char_count(self.text.as_str());
        let next = self.cursor + 1;
        self.cursor = if next < n {
            next
        } else {
            n
        };
    }

    /// To the start.
    pub fn cursor_home(&mut self)
        ensures
            final(self).text == old(self).text,
            final(self).cursor == 0,
    {
        self.cursor = 0;
    }

    /// To the end.
    pub fn cursor_end(&mut self)
        ensures
            final(self).text == old(self).text,
            final(self).cursor == old(self).text@.len(),
    {
        self.cursor = crate::display::char_count(self.text.as_str());
    }

    /// Where a mouse click at column offset `click_pos` puts the cursor: there, but not past
    /// the text's length in bytes.
    pub fn click_to(&mut self, click_pos: usize)
        ensures
            final(self).text == old(self).text,
            final(self).cursor == min_int(
                click_pos as int,
                vstd::utf8::encode_utf8(old(self).text@).len() as int,
            ),
    {
        let n = self.text.as_str().as_bytes().len();
        self.cursor = if click_pos < n {
            click_pos
        } else {
            n
        };
    }

    /// Moves to the start of the word before the cursor.
    pub fn word_left(&mut self)
        requires
            old(self).cursor <= old(self).text@.len(),
        ensures
            final(self).text == old(self).text,
            final(self).cursor == word_left(old(self).text@, old(self).cursor as int),
    {
        let chars = chars_of(self.text.as_str());
        let mut pos = self.cursor;
        while pos > 0 && !is_alphanumeric(chars[pos - 1])
            invariant
                pos <= chars@.len(),
                word_left(chars@, self.cursor as int) == word_left(chars@, pos as int),
            decreases pos,
        {
            pos = pos - 1;
        }
        assert(word_left(chars@, pos as int) == word_start(chars@, pos as int));
        while pos > 0 && is_alphanumeric(chars[pos - 1])
            invariant
                pos <= chars@.len(),
                word_left(chars@, self.cursor as int) == word_start(chars@, pos as int),
            decreases pos,
        {
            pos = pos - 1;
        }
        self.cursor = pos;
    }

    /// Moves to the start of the next word.
    pub fn word_right(&mut self)
        ensures
            final(self).text == old(self).text,
            old(self).cursor >= old(self).text@.len() ==> final(self).cursor == old(self).cursor,
            old(self).cursor < old(self).text@.len() ==> final(self).cursor == word_right(
                old(self).text@,
                old(self).cursor as int,
            ),
    {
        let chars = chars_of(self.text.as_str());
        let len = chars.len();
        if self.cursor >= len {
            return;
        }
        let mut pos = self.cursor;
        while pos < len && is_alphanumeric(chars[pos])
            invariant
                self.cursor <= pos <= len,
                len == chars@.len(),
                word_right(chars@, self.cursor as int) == word_right(chars@, pos as int),
            decreases len - pos,
        {
            pos = pos + 1;
        }
        assert(word_right(chars@, pos as int) == word_gap_end(chars@, pos as int));
        while pos < len && !is_alphanumeric(chars[pos])
            invariant
                pos <= len,
                len == chars@.len(),
                word_right(chars@, self.cursor as int) == word_gap_end(chars@, pos as int),
            decreases len - pos,
        {
            pos = pos + 1;
        }
        self.cursor = pos;
    }

    /// Deletes back to the start of the word before the cursor.
    pub fn delete_word_back(&mut self)
        requires
            old(self).cursor <= old(self).text@.len(),
        ensures
            old(self).cursor == 0 ==> *final(self) == *old(self),
            old(self).cursor > 0 ==> {
                let t = old(self).text@;
                let w = word_left(t, old(self).cursor as int);
                &&& final(self).cursor == w
                &&& final(self).text@ == t.take(w) + t.skip(old(self).cursor as int)
            },
    {
        if self.cursor == 0 {
            return;
        }
        let old_cursor = self.cursor;
        self.word_left();
        proof {
            lemma_word_left_bounds(old(self).text@, old_cursor as int);
        }
        let new_cursor = self.cursor;
        self.remove_range(new_cursor, old_cursor);
    }

    /// Clears the line.
    pub fn kill_line(&mut self)
        ensures
            final(self).text@ == Seq::<char>::empty(),
            final(self).cursor == 0,
    {
        self.text = String::new();
        self.cursor = 0;
    }

    /// Replaces the text and puts the cursor at its end (in characters).
    pub fn set_text(&mut self, text: String)
        ensures
            final(self).text@ == text@,
            final(self).cursor == text@.len(),
    {
        self.cursor = crate::display::char_count(text.as_str());
        self.text = text;
    }
}

/// The suggestion shown after the cursor: none unless the cursor is at the end of a
/// non-empty line; otherwise the newest history entry that completes the line.
pub fn ghost_suggestion(history: &CommandHistory, line: &InputLine) -> (r: Option<String>)
    ensures
        (line.cursor != line.text@.len() || line.text@.len() == 0) ==> r is None,
        (line.cursor == line.text@.len() && line.text@.len() > 0) ==> {
            &&& (r is Some <==> exists|i: int|
                0 <= i < history@.entries.len() && completes(#[trigger] history@.entries[i], line.text@))
            &&& (r matches Some(s) ==> exists|i: int|
                0 <= i < history@.entries.len() && history@.entries[i] == s@ && completes(
                    history@.entries[i],
                    line.text@,
                ) && forall|j: int|
                    i < j < history@.entries.len() ==> !completes(#[trigger] history@.entries[j], line.text@))
        },
{
    let n = crate::display::char_count(line.text.as_str());
    if line.cursor != n || n == 0 {
        return None;
    }
    history.suggest(line.text.as_str())
}

/// The text with white space removed.
pub open spec fn without_whitespace(t: Seq<char>) -> Seq<char> {
    t.filter(|c: char| !whitespace(c))
}

/// How reading pairs of bytes as hex ends.
pub ghost enum HexScan {
    /// Every pair read; these are the bytes.
    Bytes(Seq<u8>),
    /// This pair (its text) is not a hex byte.
    Bad(Seq<char>),
    /// A pair of bytes ends inside a character, where slicing the text panics.
    Split,
}

/// Reads `cs` two UTF-8 bytes at a time: two ASCII characters are one pair, a two-byte
/// character is a pair of its own (never a hex byte), and a pair that would end inside a
/// character splits it.
pub open spec fn hex_scan(cs: Seq<char>) -> HexScan
    decreases cs.len(),
{
    if cs.len() == 0 {
        HexScan::Bytes(Seq::empty())
    } else if (cs[0] as u32) < 0x80 {
        if cs.len() >= 2 && (cs[1] as u32) < 0x80 {
            match radix16(seq![cs[0], cs[1]]) {
                Some(v) => match hex_scan(cs.skip(2)) {
                    HexScan::Bytes(rest) => HexScan::Bytes(seq![v] + rest),
                    other => other,
                },
                None => HexScan::Bad(seq![cs[0], cs[1]]),
            }
        } else {
            HexScan::Split
        }
    } else if (cs[0] as u32) < 0x800 {
        HexScan::Bad(seq![cs[0]])
    } else {
        HexScan::Split
    }
}

/// The outcome of reading hex input: white space is ignored; the rest must be non-empty and an
/// even number of bytes, read in pairs as hexadecimal.
pub open spec fn hex_result(text: Seq<char>) -> Result<Seq<u8>, Seq<char>> {
    let cleaned = without_whitespace(text);
    if cleaned.len() == 0 {
        Err("Empty hex input"@)
    } else if vstd::utf8::encode_utf8(cleaned).len() % 2 != 0 {
        Err("Odd number of hex digits"@)
    } else {
        match hex_scan(cleaned) {
            HexScan::Bytes(b) => Ok(b),
            HexScan::Bad(p) => Err("Invalid hex byte: "@ + p),
            HexScan::Split => Err(Seq::empty()),
        }
    }
}

/// Reading the input splits no character (where the text is cut, it panics).
pub open spec fn hex_input_ok(text: Seq<char>) -> bool {
    let cleaned = without_whitespace(text);
    cleaned.len() == 0 || vstd::utf8::encode_utf8(cleaned).len() % 2 != 0 || !(hex_scan(
        cleaned,
    ) is Split)
}

proof fn lemma_filter_push(t: Seq<char>, i: int)
    requires
        0 <= i < t.len(),
    ensures
        without_whitespace(t.take(i + 1)) == if whitespace(t[i]) {
            without_whitespace(t.take(i))
        } else {
            without_whitespace(t.take(i)).push(t[i])
        },
{
    reveal(Seq::filter);
    assert(t.take(i + 1).drop_last() =~= t.take(i));
}

/// Reads hex input as `parse_hex_bytes` does; `None` where that would cut a character.
fn scan_hex(input: &str) -> (r: Option<Result<Vec<u8>, String>>)
    ensures
        r is None <==> !hex_input_ok(input@),
        r matches Some(res) ==> match (res, hex_result(input@)) {
            (Ok(v), Ok(b)) => v@ == b,
            (Err(e), Err(m)) => e@ == m,
            _ => false,
        },
{
    let chars = chars_of(input);
    let mut cleaned: Vec<char> = Vec::new();
    let mut i: usize = 0;
    assert(chars@.take(0) =~= Seq::<char>::empty());
    proof {
        reveal(Seq::filter);
    }
    while i < chars.len()
        invariant
            i <= chars@.len(),
            chars@ == input@,
            cleaned@ == without_whitespace(chars@.take(i as int)),
        decreases chars.len() - i,
    {
        proof {
            lemma_filter_push(chars@, i as int);
        }
        if !is_whitespace(chars[i]) {
            cleaned.push(chars[i]);
        }
        i = i + 1;
    }
    assert(chars@.take(chars@.len() as int) =~= chars@);
    if cleaned.len() == 0 {
        return Some(Err(String::from_str("Empty hex input")));
    }
    let joined = string_from_chars(&cleaned);
    let nbytes = joined.as_str().as_bytes().len();
    if nbytes % 2 != 0 {
        return Some(Err(String::from_str("Odd number of hex digits")));
    }
    let mut bytes: Vec<u8> = Vec::new();
    let mut k: usize = 0;
    assert(cleaned@ == without_whitespace(input@));
    proof {
        assert(cleaned@.skip(0) =~= cleaned@);
        match hex_scan(cleaned@) {
            HexScan::Bytes(r0) => {
                assert(Seq::<u8>::empty() + r0 =~= r0);
            },
            _ => {},
        }
    }
    while k < cleaned.len()
        invariant
            k <= cleaned@.len(),
            cleaned@ == without_whitespace(input@),
            cleaned@.len() > 0,
            vstd::utf8::encode_utf8(cleaned@).len() % 2 == 0,
            hex_scan(cleaned@) == match hex_scan(cleaned@.skip(k as int)) {
                HexScan::Bytes(rest) => HexScan::Bytes(bytes@ + rest),
                other => other,
            },
        decreases cleaned.len() - k,
    {
        let ghost rest = cleaned@.skip(k as int);
        let c1 = cleaned[k];
        if (c1 as u32) < 0x80 {
            assert(rest[0] == c1);
            if k + 1 >= cleaned.len() || (cleaned[k + 1] as u32) >= 0x80 {
                assert(hex_scan(rest) is Split);
                return None;
            }
            let c2 = cleaned[k + 1];
            assert(rest[1] == c2);
            let mut pair = String::new();
            crate::text::push_char(&mut pair, c1);
            crate::text::push_char(&mut pair, c2);
            assert(pair@ =~= seq![c1, c2]);
            match parse_hex_pair(pair.as_str()) {
                Some(v) => {
                    assert(rest.skip(2) =~= cleaned@.skip(k + 2));
                    assert(bytes@.push(v) =~= bytes@ + seq![v]);
                    proof {
                        match hex_scan(rest.skip(2)) {
                            HexScan::Bytes(r2) => {
                                assert(bytes@ + (seq![v] + r2) =~= bytes@.push(v) + r2);
                            },
                            _ => {},
                        }
                    }
                    bytes.push(v);
                    k = k + 2;
                },
                None => {
                    assert(hex_scan(rest) == HexScan::Bad(seq![c1, c2]));
                    let mut e = String::from_str("Invalid hex byte: ");
                    push_str(&mut e, pair.as_str());
                    return Some(Err(e));
                },
            }
        } else if (c1 as u32) < 0x800 {
            assert(rest[0] == c1);
            assert(hex_scan(rest) == HexScan::Bad(seq![c1]));
            let mut e = String::from_str("Invalid hex byte: ");
            crate::text::push_char(&mut e, c1);
            assert(e@ =~= "Invalid hex byte: "@ + seq![c1]);
            return Some(Err(e));
        } else {
            assert(rest[0] == c1);
            assert(hex_scan(rest) is Split);
            return None;
        }
    }
    assert(cleaned@.skip(k as int) =~= Seq::<char>::empty());
    assert(bytes@ + Seq::<u8>::empty() =~= bytes@);
    Some(Ok(bytes))
}

/// Parse a hex string into raw bytes. Accepts space-separated hex pairs: "01 FF A0" or
/// "01FFA0".
pub fn parse_hex_bytes(input: &str) -> (r: Result<Vec<u8>, String>)
    requires
        hex_input_ok(input@),
    ensures
        match (r, hex_result(input@)) {
            (Ok(v), Ok(b)) => v@ == b,
            (Err(e), Err(m)) => e@ == m,
            _ => false,
        },
{
    match scan_hex(input) {
        Some(r) => r,
        None => Err(String::new()),
    }
}

/// Reads hex input, or gives `None` for input whose reading would cut a character in two
/// (there `parse_hex_bytes` cannot be called).
pub fn parse_hex_input(input: &str) -> (r: Option<Result<Vec<u8>, String>>)
    ensures
        r is None <==> !hex_input_ok(input@),
        r matches Some(res) ==> match (res, hex_result(input@)) {
            (Ok(v), Ok(b)) => v@ == b,
            (Err(e), Err(m)) => e@ == m,
            _ => false,
        },
{
    match scan_hex(input) {
        None => None,
        Some(_) => Some(parse_hex_bytes(input)),
    }
}


/// What submitting the input line does.
pub enum SendPlan {
    /// The line is empty: nothing is sent.
    Nothing,
    /// Hex input that does not parse; the message says why, and the line is kept.
    HexError(String),
    /// Send `bytes`, and echo `echo` into the scrollback when it is `Some`.
    Send { echo: Option<String>, bytes: Vec<u8> },
}

/// The bytes that a typed line becomes on the wire: its UTF-8 encoding, then the line ending's.
pub open spec fn wire_bytes(text: Seq<char>, line_ending: Seq<char>) -> Seq<u8> {
    vstd::utf8::encode_utf8(text) + vstd::utf8::encode_utf8(line_ending)
}

/// The line echoed for a command, when sent lines are shown: hex input is marked `HEX: `.
pub open spec fn echo_of(text: Seq<char>, hex_mode: bool) -> Seq<char> {
    if hex_mode {
        "HEX: "@ + text
    } else {
        text
    }
}

fn append_bytes(v: &mut Vec<u8>, b: &[u8])
    ensures
        final(v)@ == old(v)@ + b@,
{
    let mut i: usize = 0;
    while i < b.len()
        invariant
            i <= b@.len(),
            v@ == old(v)@ + b@.subrange(0, i as int),
        decreases b@.len() - i,
    {
        v.push(b[i]);
        i = i + 1;
        proof {
            assert(b@.subrange(0, i as int) == b@.subrange(0, i - 1) + seq![b@[i - 1]]);
        }
    }
    proof {
        assert(b@.subrange(0, b@.len() as int) == b@);
    }
}

/// Decides what submitting `text` sends. Plain text goes out followed by `line_ending`;
/// in hex mode the text is read as hex bytes and sent raw, or refused with the parse error.
/// `None` only for hex input that `parse_hex_input` cannot read (a cut inside a character).
pub fn plan_send(text: &str, hex_mode: bool, show_sent: bool, line_ending: &str) -> (r: Option<SendPlan>)
    ensures
        r is None <==> (text@.len() > 0 && hex_mode && !hex_input_ok(text@)),
        r matches Some(p) ==> match p {
            SendPlan::Nothing => text@.len() == 0,
            SendPlan::HexError(e) => text@.len() > 0 && hex_mode && hex_result(text@) == Err::<Seq<u8>, Seq<char>>(e@),
            SendPlan::Send { echo, bytes } => {
                &&& text@.len() > 0
                &&& (hex_mode ==> hex_result(text@) == Ok::<Seq<u8>, Seq<char>>(bytes@))
                &&& (!hex_mode ==> bytes@ == wire_bytes(text@, line_ending@))
                &&& (show_sent ==> (echo matches Some(e) && e@ == echo_of(text@, hex_mode)))
                &&& (!show_sent ==> echo is None)
            },
        },
{
    if text.unicode_len() == 0 {
        return Some(SendPlan::Nothing);
    }
    if hex_mode {
        match parse_hex_input(text) {
            None => None,
            Some(Err(e)) => Some(SendPlan::HexError(e)),
            Some(Ok(bytes)) => {
                let echo = if show_sent {
                    let mut line = String::new();
                    push_str(&mut line, "HEX: ");
                    push_str(&mut line, text);
                    Some(line)
                } else {
                    None
                };
                Some(SendPlan::Send { echo, bytes })
            },
        }
    } else {
        let mut bytes: Vec<u8> = Vec::new();
        append_bytes(&mut bytes, text.as_bytes());
        append_bytes(&mut bytes, line_ending.as_bytes());
        proof {
            assert(bytes@ == wire_bytes(text@, line_ending@));
        }
        let echo = if show_sent {
            let mut line = String::new();
            push_str(&mut line, text);
            Some(line)
        } else {
            None
        };
        Some(SendPlan::Send { echo, bytes })
    }
}

} // verus!
