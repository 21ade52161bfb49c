//! Hex-dump rendering of raw bytes, sixteen bytes per line.
//!
//! A line looks like:
//! ```text
//! 00000000  48 65 6c 6c 6f 20 57 6f  72 6c 64 0d 0a           |Hello World..|
//! ```
use vstd::prelude::*;

use crate::text::{push_char, push_str};

verus! {

/// Lower-case hex digit for a value below sixteen.
pub open spec fn hex_digit(d: nat) -> char {
    if d < 10 {
        (48 + d) as char
    } else {
        (87 + d) as char
    }
}

/// The two lower-case hex digits of a byte.
pub open spec fn byte_hex(b: u8) -> Seq<char> {
    seq![hex_digit((b / 16) as nat), hex_digit((b % 16) as nat)]
}

/// Bytes as two-digit hex numbers separated by single spaces.
pub open spec fn hex_join(bytes: Seq<u8>) -> Seq<char>
    decreases bytes.len(),
{
    if bytes.len() == 0 {
        Seq::empty()
    } else if bytes.len() == 1 {
        byte_hex(bytes[0])
    } else {
        hex_join(bytes.drop_last()).push(' ') + byte_hex(bytes.last())
    }
}

/// The character shown for a byte in the ASCII column: graphic ASCII and the space stand
/// for themselves, everything else is a dot.
pub open spec fn ascii_cell(b: u8) -> char {
    if 0x20 <= b && b <= 0x7e {
        b as char
    } else {
        '.'
    }
}

/// The ASCII column for a run of bytes.
pub open spec fn ascii_column(bytes: Seq<u8>) -> Seq<char> {
    bytes.map_values(|b: u8| ascii_cell(b))
}

/// The bytes shown on line `i` of a dump of `data`.
pub open spec fn chunk(data: Seq<u8>, i: int) -> Seq<u8> {
    let start = 16 * i;
    let end = if start + 16 <= data.len() {
        start + 16
    } else {
        data.len() as int
    };
    data.subrange(start, end)
}

/// Number of lines in a dump of `len` bytes.
pub open spec fn line_count(len: nat) -> nat {
    (len + 15) / 16
}

/// Hex digits of `n` without leading zeros (a single `0` for zero).
pub open spec fn hex_digits(n: nat) -> Seq<char>
    decreases n,
{
    if n < 16 {
        seq![hex_digit(n)]
    } else {
        hex_digits(n / 16).push(hex_digit(n % 16))
    }
}

/// `c` repeated `n` times.
pub open spec fn repeat_char(c: char, n: nat) -> Seq<char> {
    Seq::new(n, |_i: int| c)
}

/// `s` with zeros in front until it is at least `w` characters long.
pub open spec fn zero_pad(s: Seq<char>, w: nat) -> Seq<char> {
    if s.len() < w {
        repeat_char('0', (w - s.len()) as nat) + s
    } else {
        s
    }
}

/// `s` with spaces behind until it is at least `w` characters long.
pub open spec fn space_pad(s: Seq<char>, w: nat) -> Seq<char> {
    if s.len() < w {
        s + repeat_char(' ', (w - s.len()) as nat)
    } else {
        s
    }
}

/// A single line in the hex view.
pub struct HexLine {
    pub offset: usize,
    /// First eight bytes, in hex.
    pub hex_left: String,
    /// Next eight bytes, in hex.
    pub hex_right: String,
    pub ascii: String,
    pub byte_count: usize,
}

/// What line `i` of a dump of `data` starting at `offset` holds.
pub open spec fn is_hex_line(line: HexLine, data: Seq<u8>, offset: nat, i: int) -> bool {
    let c = chunk(data, i);
    &&& line.offset == offset + 16 * i
    &&& line.hex_left@ == hex_join(c.take(if c.len() < 8 { c.len() as int } else { 8 }))
    &&& line.hex_right@ == hex_join(c.skip(if c.len() < 8 { c.len() as int } else { 8 }))
    &&& line.ascii@ == ascii_column(c)
    &&& line.byte_count == c.len()
}

/// The text of a displayed line, laid out as in the module's example: the offset as at least
/// eight hex digits, two spaces, both hex halves padded to 23 columns and separated by two
/// spaces, two more spaces, then the ASCII column between bars.
pub open spec fn hex_line_text(offset: nat, left: Seq<char>, right: Seq<char>, ascii: Seq<char>) -> Seq<char> {
    zero_pad(hex_digits(offset), 8) + seq![' ', ' '] + space_pad(left, 23) + seq![' ', ' ']
        + space_pad(right, 23) + seq![' ', ' ', '|'] + ascii + seq!['|']
}

/// The hex digit for `d`.
fn hex_digit_char(d: u8) -> (c: char)
    requires
        d < 16,
    ensures
        c == hex_digit(d as nat),
{
    if d < 10 {
        (48 + d) as char
    } else {
        (87 + d) as char
    }
}

/// Appends `bytes[start..end]` in hex, separated by spaces.
fn push_hex_run(out: &mut String, bytes: &[u8], start: usize, end: usize)
    requires
        start <= end <= bytes@.len(),
        old(out)@.len() == 0,
    ensures
        final(out)@ == hex_join(bytes@.subrange(start as int, end as int)),
{
    let mut i = start;
    proof {
        assert(bytes@.subrange(start as int, start as int) =~= Seq::<u8>::empty());
    }
    while i < end
        invariant
            start <= i <= end <= bytes@.len(),
            out@ == hex_join(bytes@.subrange(start as int, i as int)),
        decreases end - i,
    {
        let b = bytes[i];
        let ghost prev = bytes@.subrange(start as int, i as int);
        let ghost next = bytes@.subrange(start as int, i + 1);
        proof {
            assert(next.drop_last() =~= prev);
            assert(next.last() == b);
        }
        if i > start {
            push_char(out, ' ');
        }
        push_char(out, hex_digit_char(b / 16));
        push_char(out, hex_digit_char(b % 16));
        proof {
            if i > start {
                assert(out@ =~= hex_join(prev).push(' ') + byte_hex(b));
            } else {
                assert(next =~= seq![b]);
                assert(out@ =~= byte_hex(b));
            }
        }
        i = i + 1;
    }
}

/// Format raw bytes as the lines of a hex dump: line `i` shows bytes `16 * i` up to
/// `16 * i + 16` (fewer on the last line) at offset `offset + 16 * i`.
pub fn format_hex_lines(data: &[u8], offset: usize) -> (lines: Vec<HexLine>)
    requires
        data@.len() == 0 || offset + 16 * ((data@.len() - 1) / 16) <= usize::MAX,
    ensures
        lines@.len() == line_count(data@.len()),
        forall|i: int| 0 <= i < lines@.len() ==> is_hex_line(#[trigger] lines@[i], data@, offset as nat, i),
{
    let mut lines: Vec<HexLine> = Vec::new();
    let len = data.len();
    let mut pos: usize = 0;
    while pos < len
        invariant
            len == data@.len(),
            pos < len ==> pos % 16 == 0,
            pos < len ==> lines@.len() == pos / 16,
            pos >= len ==> lines@.len() == line_count(len as nat),
            len == 0 || offset + 16 * ((len - 1) / 16) <= usize::MAX,
            forall|i: int| 0 <= i < lines@.len() ==> is_hex_line(#[trigger] lines@[i], data@, offset as nat, i),
        decreases len - pos,
    {
        let remaining = len - pos;
        let chunk_end = if remaining > 16 { pos + 16 } else { len };
        let count = chunk_end - pos;
        let split = if count < 8 { pos + count } else { pos + 8 };
        let ghost c = chunk(data@, (pos / 16) as int);
        proof {
            assert(16 * (pos / 16) == pos);
            assert(c =~= data@.subrange(pos as int, chunk_end as int));
            assert((len - 1) / 16 >= pos / 16) by (nonlinear_arith)
                requires pos < len, pos % 16 == 0;
            assert(16 * ((len - 1) / 16) >= pos) by (nonlinear_arith)
                requires (len - 1) / 16 >= pos / 16, pos % 16 == 0, pos == 16 * (pos / 16);
        }
        let mut hex_left = String::new();
        push_hex_run(&mut hex_left, data, pos, split);
        let mut hex_right = String::new();
        push_hex_run(&mut hex_right, data, split, chunk_end);
        let mut ascii = String::new();
        let mut k = pos;
        while k < chunk_end
            invariant
                pos <= k <= chunk_end <= len,
                len == data@.len(),
                ascii@ == ascii_column(data@.subrange(pos as int, k as int)),
            decreases chunk_end - k,
        {
            let b = data[k];
            let shown = if 0x20 <= b && b <= 0x7e { b as char } else { '.' };
            push_char(&mut ascii, shown);
            proof {
                assert(ascii_column(data@.subrange(pos as int, k + 1)) =~= ascii_column(
                    data@.subrange(pos as int, k as int),
                ).push(ascii_cell(b)));
            }
            k = k + 1;
        }
        let line = HexLine { offset: offset + pos, hex_left, hex_right, ascii, byte_count: count };
        proof {
            let t = if c.len() < 8 { c.len() as int } else { 8 };
            assert(c.take(t) =~= data@.subrange(pos as int, split as int));
            assert(c.skip(t) =~= data@.subrange(split as int, chunk_end as int));
            assert(is_hex_line(line, data@, offset as nat, (pos / 16) as int));
        }
        lines.push(line);
        if remaining > 16 {
            pos = pos + 16;
        } else {
            proof {
                assert(line_count(len as nat) == pos / 16 + 1) by (nonlinear_arith)
                    requires pos < len, len - pos <= 16, pos % 16 == 0, pos == 16 * (pos / 16);
            }
            pos = len;
        }
    }
    proof {
        if len == 0 {
            assert(line_count(0) == 0);
        }
    }
    lines
}

impl HexLine {
    /// Format as a complete display line.
    pub fn to_string(&self) -> (s: String)
        ensures
            s@ == hex_line_text(self.offset as nat, self.hex_left@, self.hex_right@, self.ascii@),
    {
        let mut s = String::new();
        let digits = hex_digits_of(self.offset);
        let mut pad = digits.len();
        while pad < 8
            invariant
                digits@ == hex_digits(self.offset as nat),
                digits@.len() <= pad <= 8 || pad == digits@.len(),
                s@ == repeat_char('0', (pad - digits@.len()) as nat),
            decreases 8 - pad,
        {
            push_char(&mut s, '0');
            proof {
                assert(repeat_char('0', (pad - digits@.len()) as nat).push('0') =~= repeat_char(
                    '0',
                    (pad + 1 - digits@.len()) as nat,
                ));
            }
            pad = pad + 1;
        }
        let mut i: usize = 0;
        while i < digits.len()
            invariant
                0 <= i <= digits@.len(),
                s@ == repeat_char('0', (pad - digits@.len()) as nat) + digits@.take(i as int),
            decreases digits.len() - i,
        {
            push_char(&mut s, digits[i]);
            proof {
                assert(digits@.take(i + 1) =~= digits@.take(i as int).push(digits@[i as int]));
            }
            i = i + 1;
        }
        proof {
            assert(digits@.take(digits@.len() as int) =~= digits@);
            assert(s@ =~= zero_pad(hex_digits(self.offset as nat), 8));
        }
        push_str(&mut s, "  ");
        push_padded(&mut s, &self.hex_left, 23);
        push_str(&mut s, "  ");
        push_padded(&mut s, &self.hex_right, 23);
        push_str(&mut s, "  |");
        push_str(&mut s, self.ascii.as_str());
        push_char(&mut s, '|');
        proof {
            reveal_strlit("  ");
            reveal_strlit("  |");
        }
        assert(s@ =~= hex_line_text(self.offset as nat, self.hex_left@, self.hex_right@, self.ascii@));
        s
    }
}

/// Appends `t` and then spaces until at least `w` characters were appended.
fn push_padded(s: &mut String, t: &String, w: usize)
    ensures
        final(s)@ == old(s)@ + space_pad(t@, w as nat),
{
    push_str(s, t.as_str());
    let n = t.as_str().unicode_len();
    let mut k = n;
    proof {
        assert(repeat_char(' ', 0) =~= Seq::<char>::empty());
    }
    while k < w
        invariant
            n == t@.len(),
            n <= k,
            k <= w || k == n,
            s@ == old(s)@ + t@ + repeat_char(' ', (k - n) as nat),
        decreases w - k,
    {
        push_char(s, ' ');
        proof {
            assert(repeat_char(' ', (k - n) as nat).push(' ') =~= repeat_char(' ', (k + 1 - n) as nat));
        }
        k = k + 1;
    }
    proof {
        if n < w {
            assert(s@ =~= old(s)@ + space_pad(t@, w as nat));
        } else {
            assert(repeat_char(' ', 0) =~= Seq::<char>::empty());
            assert(s@ =~= old(s)@ + space_pad(t@, w as nat));
        }
    }
}

/// The hex digits of `n` without leading zeros.
pub(crate) fn hex_digits_of(n: usize) -> (v: Vec<char>)
    ensures
        v@ == hex_digits(n as nat),
    decreases n,
{
    if n < 16 {
        let mut v = Vec::new();
        v.push(hex_digit_char(n as u8));
        proof {
            reveal_with_fuel(hex_digits, 1);
        }
        v
    } else {
        let mut v = hex_digits_of(n / 16);
        v.push(hex_digit_char((n % 16) as u8));
        v
    }
}

} // verus!
