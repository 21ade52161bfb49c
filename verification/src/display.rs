//! Display-width arithmetic over the characters of a line.
use vstd::prelude::*;
use vstd::utf8::encode_utf8;

use crate::text::{chars_of, push_char};

verus! {

/// The column width that `unicode_width` gives one character; `None` for control characters.
pub uninterp spec fn unicode_char_width(c: char) -> Option<usize>;

/// The column width that `unicode_width` gives a whole string.
pub uninterp spec fn unicode_str_width(s: Seq<char>) -> usize;

/// Calls `UnicodeWidthChar::width`. Claims: the result is the named width of `c`; printable
/// ASCII (U+0020..U+007E) is one column wide; C0 and C1 control characters have no width
/// (`None`); no character is wider than three columns (the lookup table stores two-bit widths
/// and its one special case beyond that is U+17D8 with width 3).
#[verifier::external_body]
fn unicode_width_char(c: char) -> (r: Option<usize>)
    ensures
        r == unicode_char_width(c),
        0x20 <= c as u32 && (c as u32) < 0x7f ==> r == Some(1usize),
        (c as u32) < 0x20 || (0x7f <= (c as u32) && (c as u32) < 0xa0) ==> r is None,
        r matches Some(w) ==> w <= 3,
{
    unicode_width::UnicodeWidthChar::width(c)
}

/// Whether every character is printable ASCII (U+0020..U+007E).
pub open spec fn printable_ascii(s: Seq<char>) -> bool {
    forall|i: int| 0 <= i < s.len() ==> 0x20 <= (#[trigger] s[i]) as u32 && (s[i] as u32) < 0x7f
}

/// Display width of a whole string, as `unicode_width::UnicodeWidthStr::width` computes it
/// (which accounts for ligatures and emoji sequences, so it is not always the sum of the
/// character widths). Claims that the result is the named width of the string, and that text
/// of printable ASCII alone is as wide as it has characters (each is one column, and none of
/// the crate's multi-character rules, `\r\n`, emoji and ligature sequences, applies to it).
#[verifier::external_body]
pub fn width(text: &str) -> (w: usize)
    ensures
        w == unicode_str_width(text@),
        printable_ascii(text@) ==> w == text@.len(),
{
    unicode_width::UnicodeWidthStr::width(text)
}

/// Width of one character, counting control characters as zero columns.
pub open spec fn char_cols(c: char) -> nat {
    match unicode_char_width(c) {
        Some(w) => w as nat,
        None => 0,
    }
}

/// Sum of the character widths of `s`.
pub open spec fn cols_sum(s: Seq<char>) -> nat
    decreases s.len(),
{
    if s.len() == 0 {
        0
    } else {
        cols_sum(s.drop_last()) + char_cols(s.last())
    }
}

/// Number of UTF-8 bytes of one character.
pub open spec fn utf8_len(c: char) -> nat {
    encode_utf8(seq![c]).len()
}

/// Index of the first character whose inclusion pushes the summed width past `target`,
/// or the length of `s` when no character does.
pub open spec fn is_width_cut(s: Seq<char>, target: nat, r: int) -> bool {
    &&& 0 <= r <= s.len()
    &&& forall|j: int| 0 <= j < r ==> #[trigger] cols_sum(s.take(j + 1)) <= target
    &&& r < s.len() ==> cols_sum(s.take(r + 1)) > target
}

/// A longer prefix is never narrower.
pub proof fn lemma_cols_sum_monotone(s: Seq<char>, i: int, j: int)
    requires
        0 <= i <= j <= s.len(),
    ensures
        cols_sum(s.take(i)) <= cols_sum(s.take(j)),
    decreases j - i,
{
    if i < j {
        lemma_cols_sum_monotone(s, i, j - 1);
        assert(s.take(j).drop_last() =~= s.take(j - 1));
    }
}

/// Number of characters (not bytes) in `text`.
pub fn char_count(text: &str) -> (n: usize)
    ensures
        n == text@.len(),
{
    text.unicode_len()
}

/// Width of one character; control characters count as zero columns.
pub fn char_width(ch: char) -> (w: usize)
    ensures
        w == char_cols(ch),
        w <= 3,
{
    match unicode_width_char(ch) {
        Some(w) => w,
        None => 0,
    }
}

/// Number of UTF-8 bytes that encode `c`.
pub fn char_utf8_len(c: char) -> (n: usize)
    ensures
        n == utf8_len(c),
        1 <= n <= 4,
{
    let v = c as u32;
    proof {
        vstd::utf8::char_is_scalar(c);
        reveal_with_fuel(encode_utf8, 2);
    }
    if v < 0x80 {
        1
    } else if v < 0x800 {
        2
    } else if v < 0x10000 {
        3
    } else {
        4
    }
}

pub(crate) proof fn lemma_encode_utf8_take_push(s: Seq<char>, i: int)
    requires
        0 <= i < s.len(),
    ensures
        encode_utf8(s.take(i + 1)).len() == encode_utf8(s.take(i)).len() + utf8_len(s[i]),
    decreases i,
{
    reveal_with_fuel(encode_utf8, 2);
    if i == 0 {
        assert(s.take(1) =~= seq![s[0]]);
        assert(s.take(0) =~= Seq::<char>::empty());
    } else {
        let t = s.drop_first();
        lemma_encode_utf8_take_push(t, i - 1);
        assert(s.take(i + 1).drop_first() =~= t.take(i));
        assert(s.take(i).drop_first() =~= t.take(i - 1));
        assert(s.take(i + 1)[0] == s[0]);
        assert(s.take(i)[0] == s[0]);
    }
}

/// Byte offset of the character at `char_index`, or the byte length of `text` when the index
/// is at or past the end.
pub fn byte_index_for_char(text: &str, char_index: usize) -> (r: usize)
    ensures
        char_index < text@.len() ==> r == encode_utf8(text@.take(char_index as int)).len(),
        char_index >= text@.len() ==> r == encode_utf8(text@).len(),
{
    let chars = chars_of(text);
    let total = text.as_bytes().len();
    let n = chars.len();
    let limit = if char_index < n { char_index } else { n };
    let mut bytes: usize = 0;
    let mut i: usize = 0;
    proof {
        assert(text@.take(0) =~= Seq::<char>::empty());
        reveal_with_fuel(encode_utf8, 1);
    }
    while i < limit
        invariant
            chars@ == text@,
            n == chars@.len(),
            limit <= n,
            i <= limit,
            total == encode_utf8(text@).len(),
            bytes == encode_utf8(text@.take(i as int)).len(),
        decreases limit - i,
    {
        proof {
            lemma_encode_utf8_take_push(text@, i as int);
            lemma_encode_utf8_prefix_le(text@, i + 1);
        }
        bytes = bytes + char_utf8_len(chars[i]);
        i = i + 1;
    }
    if char_index < n {
        bytes
    } else {
        total
    }
}

proof fn lemma_encode_utf8_prefix_le(s: Seq<char>, k: int)
    requires
        0 <= k <= s.len(),
    ensures
        encode_utf8(s.take(k)).len() <= encode_utf8(s).len(),
    decreases s.len() - k,
{
    if k < s.len() {
        lemma_encode_utf8_take_push(s, k);
        lemma_encode_utf8_prefix_le(s, k + 1);
    } else {
        assert(s.take(k) =~= s);
    }
}

/// Summed width of the first `char_count` characters of `text` (all of them when the count
/// exceeds the length).
pub fn width_prefix_chars(text: &str, char_count: usize) -> (w: usize)
    requires
        text@.len() <= usize::MAX / 3,
    ensures
        char_count <= text@.len() ==> w == cols_sum(text@.take(char_count as int)),
        char_count > text@.len() ==> w == cols_sum(text@),
{
    let chars = chars_of(text);
    let n = chars.len();
    let limit = if char_count < n { char_count } else { n };
    let mut w: usize = 0;
    let mut i: usize = 0;
    proof {
        assert(text@.take(0) =~= Seq::<char>::empty());
    }
    while i < limit
        invariant
            chars@ == text@,
            n == chars@.len(),
            n <= usize::MAX / 3,
            limit <= n,
            i <= limit,
            w == cols_sum(text@.take(i as int)),
            w <= 3 * i,
        decreases limit - i,
    {
        proof {
            assert(text@.take(i + 1).drop_last() =~= text@.take(i as int));
        }
        w = w + char_width(chars[i]);
        i = i + 1;
    }
    proof {
        assert(text@.take(n as int) =~= text@);
    }
    w
}

/// Index of the first character at which the running width would exceed `target_width`; the
/// character count when the whole text fits.
pub fn char_index_for_width(text: &str, target_width: usize) -> (r: usize)
    requires
        text@.len() <= usize::MAX / 3,
    ensures
        is_width_cut(text@, target_width as nat, r as int),
{
    let chars = chars_of(text);
    cut_index(&chars, target_width)
}

/// Index of the first character of `chars` at which the running width would exceed `target`.
fn cut_index(chars: &Vec<char>, target: usize) -> (r: usize)
    requires
        chars@.len() <= usize::MAX / 3,
    ensures
        is_width_cut(chars@, target as nat, r as int),
{
    let n = chars.len();
    let mut w: usize = 0;
    let mut i: usize = 0;
    proof {
        assert(chars@.take(0) =~= Seq::<char>::empty());
    }
    while i < n
        invariant
            n == chars@.len(),
            n <= usize::MAX / 3,
            i <= n,
            w == cols_sum(chars@.take(i as int)),
            w <= target,
            w <= 3 * i,
            forall|j: int| 0 <= j < i ==> #[trigger] cols_sum(chars@.take(j + 1)) <= target,
        decreases n - i,
    {
        proof {
            assert(chars@.take(i + 1).drop_last() =~= chars@.take(i as int));
        }
        let next = w + char_width(chars[i]);
        if next > target {
            return i;
        }
        w = next;
        i = i + 1;
    }
    n
}

/// `text` unchanged when its display width fits in `max_width`; the empty string when the
/// width is zero; otherwise the longest prefix whose summed character width fits in
/// `max_width - 1`, followed by an ellipsis.
pub fn truncate_width(text: &str, max_width: usize) -> (r: String)
    requires
        text@.len() <= usize::MAX / 3,
    ensures
        unicode_str_width(text@) <= max_width ==> r@ == text@,
        unicode_str_width(text@) > max_width && max_width == 0 ==> r@ == Seq::<char>::empty(),
        unicode_str_width(text@) > max_width && max_width > 0 ==> exists|k: int|
            is_width_cut(text@, (max_width - 1) as nat, k) && r@ == text@.take(k).push('…'),
{
    if width(text) <= max_width {
        return text.to_owned();
    }
    if max_width == 0 {
        return String::new();
    }
    let chars = chars_of(text);
    let k = cut_index(&chars, max_width - 1);
    let mut out = String::new();
    let mut i: usize = 0;
    while i < k
        invariant
            chars@ == text@,
            k <= chars@.len(),
            i <= k,
            out@ == text@.take(i as int),
        decreases k - i,
    {
        push_char(&mut out, chars[i]);
        proof {
            assert(text@.take(i as int).push(text@[i as int]) =~= text@.take(i + 1));
        }
        i = i + 1;
    }
    push_char(&mut out, '…');
    out
}

} // verus!
