//! Screen layout decisions: how much room there is, which bars are shown, the key hints, the
//! status text, and how labels are shortened.
use vstd::prelude::*;
use vstd::utf8::encode_utf8;

use crate::display::{lemma_encode_utf8_take_push, truncate_width, unicode_str_width, is_width_cut, utf8_len, char_utf8_len};
use crate::session::Mode;
use crate::text::{chars_of, push_char, push_str, string_from_chars};

verus! {

/// How much horizontal room the screen has.
#[derive(Clone, Copy, Debug, PartialEq, Eq, Structural)]
pub enum WidthMode {
    Full,
    Compact,
    Minimal,
}

/// Below 80 columns minimal, below 100 compact, otherwise full.
pub open spec fn mode_for_width(width: u16) -> WidthMode {
    if width <= 79 {
        WidthMode::Minimal
    } else if width <= 99 {
        WidthMode::Compact
    } else {
        WidthMode::Full
    }
}

pub fn width_mode(width: u16) -> (m: WidthMode)
    ensures
        m == mode_for_width(width),
{
    if width <= 79 {
        WidthMode::Minimal
    } else if width <= 99 {
        WidthMode::Compact
    } else {
        WidthMode::Full
    }
}

/// A row of the screen, top to bottom.
#[derive(Clone, Copy, Debug, PartialEq, Eq, Structural)]
pub enum Bar {
    Status,
    Terminal,
    QuickSend,
    Search,
    Input,
    Hints,
}

/// The rows shown: status, output, the quick-send bar when there are quick commands and room,
/// the search bar while searching or while a query remains, the input bar and the hints.
pub open spec fn bars_for(mode: Mode, query_empty: bool, quicksend_empty: bool, wm: WidthMode) -> Seq<Bar> {
    let has_search = mode == Mode::Search || !query_empty;
    let has_quicksend = !quicksend_empty && wm != WidthMode::Minimal;
    seq![Bar::Status, Bar::Terminal] + (if has_quicksend {
        seq![Bar::QuickSend]
    } else {
        Seq::empty()
    }) + (if has_search {
        seq![Bar::Search]
    } else {
        Seq::empty()
    }) + seq![Bar::Input, Bar::Hints]
}

/// The rows of the screen, in order.
pub fn bars(mode: Mode, query_empty: bool, quicksend_empty: bool, wm: WidthMode) -> (v: Vec<Bar>)
    ensures
        v@ == bars_for(mode, query_empty, quicksend_empty, wm),
{
    let mut v: Vec<Bar> = Vec::new();
    v.push(Bar::Status);
    v.push(Bar::Terminal);
    let has_search = mode == Mode::Search || !query_empty;
    let has_quicksend = !quicksend_empty && wm != WidthMode::Minimal;
    if has_quicksend {
        v.push(Bar::QuickSend);
    }
    if has_search {
        v.push(Bar::Search);
    }
    v.push(Bar::Input);
    v.push(Bar::Hints);
    assert(v@ =~= bars_for(mode, query_empty, quicksend_empty, wm));
    v
}

/// A key and what it does.
pub type Hint = (&'static str, &'static str);

/// The key hints of each mode at each width.
pub open spec fn hint_table(mode: Mode, wm: WidthMode) -> Seq<(Seq<char>, Seq<char>)> {
    match (mode, wm) {
        (Mode::Normal, WidthMode::Full) => seq![
            ("i"@, "input"@), ("j/k"@, "scroll"@), ("/"@, "search"@), ("p"@, "ports"@),
            ("s"@, "settings"@), ("m"@, "macros"@), ("M"@, "rerun"@), ("f"@, "filters"@),
            ("?"@, "help"@)],
        (Mode::Normal, WidthMode::Compact) => seq![
            ("i"@, "input"@), ("/"@, "search"@), ("p"@, "ports"@), ("m"@, "macro"@),
            ("M"@, "rerun"@), ("?"@, "help"@)],
        (Mode::Normal, WidthMode::Minimal) => seq![
            ("i"@, "input"@), ("/"@, "find"@), ("p"@, "ports"@), ("?"@, "help"@)],
        (Mode::Input, WidthMode::Full) => seq![
            ("Enter"@, "send"@), ("↑/↓"@, "history"@), ("Tab"@, "accept"@), ("F1-F8"@, "quick"@),
            ("^P"@, "ports"@), ("^S"@, "settings"@), ("^H"@, "hex"@), ("M"@, "rerun"@),
            ("Esc"@, "browse"@)],
        (Mode::Input, WidthMode::Compact) => seq![
            ("Enter"@, "send"@), ("Tab"@, "accept"@), ("F1-F8"@, "quick"@), ("M"@, "rerun"@),
            ("Esc"@, "browse"@)],
        (Mode::Input, WidthMode::Minimal) => seq![
            ("Enter"@, "send"@), ("Tab"@, "accept"@), ("Esc"@, "back"@)],
        (Mode::Search, WidthMode::Minimal) => seq![
            ("Enter"@, "ok"@), ("↑/↓"@, "move"@), ("Esc"@, "close"@)],
        (Mode::Search, _) => seq![
            ("Enter"@, "confirm"@), ("↑/↓"@, "prev/next"@), ("*"@, "wildcard"@), ("Esc"@, "close"@)],
        (Mode::PortSelect, WidthMode::Full) => seq![
            ("Enter"@, "connect"@), ("j/k"@, "move"@), ("a"@, "auto-baud"@), ("r"@, "refresh"@),
            ("Esc"@, "close"@)],
        (Mode::PortSelect, _) => seq![
            ("Enter"@, "connect"@), ("a"@, "baud"@), ("r"@, "refresh"@), ("Esc"@, "close"@)],
        (Mode::Settings, WidthMode::Minimal) => seq![
            ("←/→"@, "change"@), ("Enter"@, "apply"@), ("Esc"@, "cancel"@)],
        (Mode::Settings, _) => seq![
            ("↑/↓"@, "field"@), ("←/→"@, "change"@), ("Enter"@, "apply"@), ("Esc"@, "cancel"@)],
        (Mode::Help, WidthMode::Minimal) => seq![("↑/↓"@, "scroll"@), ("Esc"@, "close"@)],
        (Mode::Help, _) => seq![("j/k"@, "scroll"@), ("PgUp/Dn"@, "page"@), ("Esc"@, "close"@)],
        (Mode::MacroSelect, WidthMode::Minimal) => seq![
            ("Enter"@, "run"@), ("r"@, "reload"@), ("Esc"@, "close"@)],
        (Mode::MacroSelect, _) => seq![
            ("Enter"@, "run"@), ("r"@, "reload"@), ("j/k"@, "move"@), ("Esc"@, "close"@)],
        (Mode::Filter, WidthMode::Minimal) => seq![
            ("Enter"@, "apply"@), ("Del"@, "drop"@), ("Esc"@, "close"@)],
        (Mode::Filter, _) => seq![
            ("Enter"@, "apply"@), ("↑/↓"@, "select"@), ("Tab"@, "+/-"@), ("Del/^D"@, "delete"@),
            ("Esc"@, "close"@)],
    }
}

/// The text of each hint.
pub open spec fn hint_views(v: Seq<Hint>) -> Seq<(Seq<char>, Seq<char>)> {
    v.map_values(|h: Hint| (h.0@, h.1@))
}

/// The key hints shown at the bottom of the screen.
pub fn help_hints(mode: Mode, wm: WidthMode) -> (v: Vec<Hint>)
    ensures
        hint_views(v@) == hint_table(mode, wm),
{
    let v: Vec<Hint> = match (mode, wm) {
        (Mode::Normal, WidthMode::Full) => vec![
            ("i", "input"), ("j/k", "scroll"), ("/", "search"), ("p", "ports"), ("s", "settings"),
            ("m", "macros"), ("M", "rerun"), ("f", "filters"), ("?", "help")],
        (Mode::Normal, WidthMode::Compact) => vec![
            ("i", "input"), ("/", "search"), ("p", "ports"), ("m", "macro"), ("M", "rerun"),
            ("?", "help")],
        (Mode::Normal, WidthMode::Minimal) => vec![
            ("i", "input"), ("/", "find"), ("p", "ports"), ("?", "help")],
        (Mode::Input, WidthMode::Full) => vec![
            ("Enter", "send"), ("↑/↓", "history"), ("Tab", "accept"), ("F1-F8", "quick"),
            ("^P", "ports"), ("^S", "settings"), ("^H", "hex"), ("M", "rerun"), ("Esc", "browse")],
        (Mode::Input, WidthMode::Compact) => vec![
            ("Enter", "send"), ("Tab", "accept"), ("F1-F8", "quick"), ("M", "rerun"),
            ("Esc", "browse")],
        (Mode::Input, WidthMode::Minimal) => vec![
            ("Enter", "send"), ("Tab", "accept"), ("Esc", "back")],
        (Mode::Search, WidthMode::Minimal) => vec![
            ("Enter", "ok"), ("↑/↓", "move"), ("Esc", "close")],
        (Mode::Search, _) => vec![
            ("Enter", "confirm"), ("↑/↓", "prev/next"), ("*", "wildcard"), ("Esc", "close")],
        (Mode::PortSelect, WidthMode::Full) => vec![
            ("Enter", "connect"), ("j/k", "move"), ("a", "auto-baud"), ("r", "refresh"),
            ("Esc", "close")],
        (Mode::PortSelect, _) => vec![
            ("Enter", "connect"), ("a", "baud"), ("r", "refresh"), ("Esc", "close")],
        (Mode::Settings, WidthMode::Minimal) => vec![
            ("←/→", "change"), ("Enter", "apply"), ("Esc", "cancel")],
        (Mode::Settings, _) => vec![
            ("↑/↓", "field"), ("←/→", "change"), ("Enter", "apply"), ("Esc", "cancel")],
        (Mode::Help, WidthMode::Minimal) => vec![("↑/↓", "scroll"), ("Esc", "close")],
        (Mode::Help, _) => vec![("j/k", "scroll"), ("PgUp/Dn", "page"), ("Esc", "close")],
        (Mode::MacroSelect, WidthMode::Minimal) => vec![
            ("Enter", "run"), ("r", "reload"), ("Esc", "close")],
        (Mode::MacroSelect, _) => vec![
            ("Enter", "run"), ("r", "reload"), ("j/k", "move"), ("Esc", "close")],
        (Mode::Filter, WidthMode::Minimal) => vec![
            ("Enter", "apply"), ("Del", "drop"), ("Esc", "close")],
        (Mode::Filter, _) => vec![
            ("Enter", "apply"), ("↑/↓", "select"), ("Tab", "+/-"), ("Del/^D", "delete"),
            ("Esc", "close")],
    };
    assert(hint_views(v@) =~= hint_table(mode, wm));
    v
}

/// The byte counters and recording mark before the hints: counters at full and compact width,
/// `●REC` while logging, and a separator when anything is there.
pub open spec fn hint_prefix(rx: Seq<char>, tx: Seq<char>, wm: WidthMode, logging: bool) -> Seq<char> {
    let counters = match wm {
        WidthMode::Full => " RX: "@ + rx + "  TX: "@ + tx,
        WidthMode::Compact => " RX "@ + rx + "  TX "@ + tx,
        WidthMode::Minimal => Seq::empty(),
    };
    let with_rec = if logging {
        if counters.len() > 0 {
            counters + "  "@ + "●REC"@
        } else {
            "●REC"@
        }
    } else {
        counters
    };
    if with_rec.len() > 0 {
        with_rec + " │ "@
    } else {
        with_rec
    }
}

/// The text before the key hints; `rx` and `tx` are the formatted byte counts.
pub fn help_prefix(rx: &str, tx: &str, wm: WidthMode, logging: bool) -> (s: String)
    ensures
        s@ == hint_prefix(rx@, tx@, wm, logging),
{
    proof {
        reveal_strlit(" RX: ");
        reveal_strlit(" RX ");
        reveal_strlit("●REC");
        reveal_strlit(" │ ");
    }
    let mut s = String::new();
    match wm {
        WidthMode::Full => {
            push_str(&mut s, " RX: ");
            push_str(&mut s, rx);
            push_str(&mut s, "  TX: ");
            push_str(&mut s, tx);
        },
        WidthMode::Compact => {
            push_str(&mut s, " RX ");
            push_str(&mut s, rx);
            push_str(&mut s, "  TX ");
            push_str(&mut s, tx);
        },
        WidthMode::Minimal => {},
    }
    let ghost counters = s@;
    assert(counters == match wm {
        WidthMode::Full => " RX: "@ + rx@ + "  TX: "@ + tx@,
        WidthMode::Compact => " RX "@ + rx@ + "  TX "@ + tx@,
        WidthMode::Minimal => Seq::<char>::empty(),
    });
    if logging {
        if s.as_str().unicode_len() > 0 {
            push_str(&mut s, "  ");
        }
        push_str(&mut s, "●REC");
    }
    if s.as_str().unicode_len() > 0 {
        push_str(&mut s, " │ ");
    }
    s
}

/// The mode marks shown at the right of the status bar, joined by `|` in brackets.
pub open spec fn indicator_list(hex: bool, hex_input: bool, eol: bool, timestamps: bool, filtering: bool) -> Seq<Seq<char>> {
    (if hex { seq!["HEX"@] } else { Seq::empty() }) + (if hex_input {
        seq!["HEX▹"@]
    } else {
        Seq::empty()
    }) + (if eol { seq!["EOL"@] } else { Seq::empty() }) + (if !timestamps {
        seq!["!TS"@]
    } else {
        Seq::empty()
    }) + (if filtering { seq!["FILT"@] } else { Seq::empty() })
}

/// `parts` joined with `sep`.
pub open spec fn joined(parts: Seq<Seq<char>>, sep: Seq<char>) -> Seq<char>
    decreases parts.len(),
{
    if parts.len() == 0 {
        Seq::empty()
    } else if parts.len() == 1 {
        parts[0]
    } else {
        joined(parts.drop_last(), sep) + sep + parts.last()
    }
}

/// The mode marks of the status bar: nothing when none applies, otherwise `  [` the marks
/// joined by `|` `]`.
pub fn indicators(hex: bool, hex_input: bool, eol: bool, timestamps: bool, filtering: bool) -> (s: String)
    ensures
        ({
            let l = indicator_list(hex, hex_input, eol, timestamps, filtering);
            s@ == if l.len() == 0 {
                Seq::<char>::empty()
            } else {
                "  ["@ + joined(l, "|"@) + "]"@
            }
        }),
{
    let mut parts: Vec<&'static str> = Vec::new();
    if hex {
        parts.push("HEX");
    }
    if hex_input {
        parts.push("HEX▹");
    }
    if eol {
        parts.push("EOL");
    }
    if !timestamps {
        parts.push("!TS");
    }
    if filtering {
        parts.push("FILT");
    }
    let ghost l = indicator_list(hex, hex_input, eol, timestamps, filtering);
    assert(parts@.map_values(|p: &str| p@) =~= l);
    if parts.len() == 0 {
        return String::new();
    }
    let mut s = String::from_str("  [");
    let mut i: usize = 0;
    while i < parts.len()
        invariant
            0 < parts@.len(),
            i <= parts@.len(),
            parts@.map_values(|p: &str| p@) == l,
            s@ == "  ["@ + joined(l.take(i as int), "|"@),
        decreases parts.len() - i,
    {
        proof {
            assert(l.take(i + 1).drop_last() =~= l.take(i as int));
        }
        if i > 0 {
            push_str(&mut s, "|");
        }
        push_str(&mut s, parts[i]);
        proof {
            if i == 0 {
                assert(joined(l.take(1), "|"@) == l.take(1)[0]);
                assert(joined(l.take(0), "|"@) =~= Seq::<char>::empty());
            }
        }
        assert(s@ =~= "  ["@ + joined(l.take(i + 1), "|"@));
        i = i + 1;
    }
    assert(l.take(parts@.len() as int) =~= l);
    push_str(&mut s, "]");
    s
}

/// Room for the port name in the status bar: what is left after the other fields at each
/// width, at least 8.
pub open spec fn budget(width: u16, wm: WidthMode) -> int {
    let reserved: int = match wm {
        WidthMode::Full => 45,
        WidthMode::Compact => 28,
        WidthMode::Minimal => 20,
    };
    let left = if width >= reserved { width - reserved } else { 0 };
    if left >= 8 { left } else { 8 }
}

pub fn port_budget(width: u16, wm: WidthMode) -> (n: usize)
    ensures
        n == budget(width, wm),
{
    let reserved: u16 = match wm {
        WidthMode::Full => 45,
        WidthMode::Compact => 28,
        WidthMode::Minimal => 20,
    };
    let left: usize = if width >= reserved {
        (width - reserved) as usize
    } else {
        0
    };
    if left >= 8 {
        left
    } else {
        8
    }
}

/// `max` bytes of `s` end at a character boundary.
pub open spec fn cut_at_char(s: Seq<char>, bytes: int) -> bool {
    exists|k: int| 0 <= k <= s.len() && #[trigger] encode_utf8(s.take(k)).len() == bytes
}

/// Shortens `s` to fit `max_len` bytes: unchanged if it fits, otherwise its first
/// `max_len - 1` bytes (at least none) and an ellipsis.
pub fn truncate(s: &str, max_len: usize) -> (r: String)
    requires
        encode_utf8(s@).len() > max_len ==> cut_at_char(s@, if max_len >= 1 { max_len - 1 } else { 0 }),
    ensures
        encode_utf8(s@).len() <= max_len ==> r@ == s@,
        encode_utf8(s@).len() > max_len ==> exists|k: int|
            0 <= k <= s@.len() && encode_utf8(s@.take(k)).len() == (if max_len >= 1 {
                max_len - 1
            } else {
                0
            }) && r@ == s@.take(k).push('…'),
{
    let total = s.as_bytes().len();
    if total <= max_len {
        return String::from_str(s);
    }
    let m: usize = if max_len >= 1 {
        max_len - 1
    } else {
        0
    };
    let chars = chars_of(s);
    let mut out = String::new();
    let mut used: usize = 0;
    let mut i: usize = 0;
    assert(chars@.take(0) =~= Seq::<char>::empty());
    while used < m
        invariant
            chars@ == s@,
            i <= chars@.len(),
            used == encode_utf8(chars@.take(i as int)).len(),
            used <= m,
            m < total,
            total == encode_utf8(s@).len(),
            cut_at_char(s@, m as int),
            out@ == chars@.take(i as int),
        decreases m - used,
    {
        if i >= chars.len() {
            proof {
                assert(chars@.take(i as int) =~= chars@);
            }
            assert(false);
        }
        proof {
            lemma_encode_utf8_take_push(chars@, i as int);
            lemma_bytes_monotone(chars@, i + 1, chars@.len() as int);
            assert(chars@.take(chars@.len() as int) =~= chars@);
        }
        let n = char_utf8_len(chars[i]);
        if used + n > m {
            proof {
                let k = choose|k: int| 0 <= k <= s@.len() && #[trigger] encode_utf8(s@.take(k)).len() == m;
                lemma_bytes_monotone(chars@, i as int + 1, k);
                lemma_bytes_monotone(chars@, k, i as int);
            }
            assert(false);
        }
        push_char(&mut out, chars[i]);
        used = used + n;
        assert(chars@.take(i + 1) =~= chars@.take(i as int).push(chars@[i as int]));
        i = i + 1;
    }
    push_char(&mut out, '…');
    out
}

/// Longer prefixes take at least as many bytes, and strictly more when longer.
proof fn lemma_bytes_monotone(s: Seq<char>, i: int, j: int)
    requires
        0 <= i <= s.len(),
        0 <= j <= s.len(),
    ensures
        i < j ==> encode_utf8(s.take(i)).len() < encode_utf8(s.take(j)).len(),
        i == j ==> encode_utf8(s.take(i)).len() == encode_utf8(s.take(j)).len(),
    decreases j - i,
{
    if i < j {
        lemma_encode_utf8_take_push(s, j - 1);
        assert(utf8_len(s[j - 1]) >= 1) by {
            reveal_with_fuel(encode_utf8, 2);
        }
        lemma_bytes_monotone(s, i, j - 1);
    }
}

/// A quick-send label: the command shortened to `max_len` columns.
pub fn command_label(cmd: &str, max_len: usize) -> (r: String)
    requires
        cmd@.len() <= usize::MAX / 3,
    ensures
        unicode_str_width(cmd@) <= max_len ==> r@ == cmd@,
        unicode_str_width(cmd@) > max_len && max_len == 0 ==> r@ == Seq::<char>::empty(),
        unicode_str_width(cmd@) > max_len && max_len > 0 ==> exists|k: int|
            is_width_cut(cmd@, (max_len - 1) as nat, k) && r@ == cmd@.take(k).push('…'),
{
    truncate_width(cmd, max_len)
}

/// Columns for each quick-send label at each width.
pub fn quicksend_label_width(wm: WidthMode) -> (n: usize)
    ensures
        n == match wm {
            WidthMode::Full => 14usize,
            WidthMode::Compact => 8usize,
            WidthMode::Minimal => 0usize,
        },
{
    match wm {
        WidthMode::Full => 14,
        WidthMode::Compact => 8,
        WidthMode::Minimal => 0,
    }
}

/// The top-left corner of a `width` by `height` box centred in the area at `(x, y)` of
/// `area_width` by `area_height`.
pub fn centered_origin(width: u16, height: u16, x: u16, y: u16, area_width: u16, area_height: u16) -> (r: (u16, u16))
    requires
        x + area_width <= u16::MAX,
        y + area_height <= u16::MAX,
    ensures
        r.0 == x + (if area_width >= width { area_width - width } else { 0 }) / 2,
        r.1 == y + (if area_height >= height { area_height - height } else { 0 }) / 2,
{
    let dx: u16 = if area_width >= width {
        area_width - width
    } else {
        0
    };
    let dy: u16 = if area_height >= height {
        area_height - height
    } else {
        0
    };
    (x + dx / 2, y + dy / 2)
}

/// A piece of a rendered span: its text, which span it came from, and whether it is
/// selected.
#[derive(Debug)]
pub struct Segment {
    pub text: String,
    pub span: usize,
    pub selected: bool,
}

/// Column `c` lies in the selected columns `rs..=re`.
pub open spec fn sel_at(c: int, rs: int, re: int) -> bool {
    rs <= c && c <= re
}

/// `t`, starting at column `col`, cut into maximal runs of characters that are all selected
/// or all not (each character counts one column from `col`).
pub open spec fn runs(t: Seq<char>, col: int, rs: int, re: int) -> Seq<(Seq<char>, bool)>
    decreases t.len(),
{
    if t.len() == 0 {
        Seq::empty()
    } else {
        let r = runs(t.drop_last(), col, rs, re);
        let s = sel_at(col + t.len() - 1, rs, re);
        if r.len() > 0 && r.last().1 == s {
            r.drop_last().push((r.last().0.push(t.last()), s))
        } else {
            r.push((seq![t.last()], s))
        }
    }
}

/// `re + 1`, or `re` at the largest column.
pub open spec fn after(re: int) -> int {
    if re == usize::MAX {
        re
    } else {
        re + 1
    }
}

/// A span at column `col` (its columns counted in bytes): wholly outside the selection, wholly
/// inside, or cut into runs.
pub open spec fn span_segments(t: Seq<char>, col: int, rs: int, re: int) -> Seq<(Seq<char>, bool)> {
    let end = col + encode_utf8(t).len();
    if end <= rs || col > re {
        seq![(t, false)]
    } else if col >= rs && end <= after(re) {
        seq![(t, true)]
    } else {
        runs(t, col, rs, re)
    }
}

/// Total UTF-8 length of the spans.
pub open spec fn total_bytes(spans: Seq<Seq<char>>) -> int
    decreases spans.len(),
{
    if spans.len() == 0 {
        0
    } else {
        total_bytes(spans.drop_last()) + encode_utf8(spans.last()).len()
    }
}

/// The segments of a line of spans, each span starting where the one before it ends.
pub open spec fn line_segments(spans: Seq<Seq<char>>, rs: int, re: int) -> Seq<(Seq<char>, usize, bool)>
    decreases spans.len(),
{
    if spans.len() == 0 {
        Seq::empty()
    } else {
        let k = (spans.len() - 1) as usize;
        line_segments(spans.drop_last(), rs, re) + span_segments(
            spans.last(),
            total_bytes(spans.drop_last()),
            rs,
            re,
        ).map_values(|p: (Seq<char>, bool)| (p.0, k, p.1))
    }
}

/// The selected columns of screen row `row`, relative to a line starting at `area_x`, or
/// `None` when the row is outside the selection `(start_row, start_col, end_row, end_col)`.
pub open spec fn row_columns(row: u16, area_x: u16, r: (u16, u16, u16, u16)) -> Option<(int, int)> {
    let (sr, sc, er, ec) = r;
    if row < sr || row > er {
        None
    } else {
        Some((
            if row == sr { if sc >= area_x { sc - area_x } else { 0 } } else { 0 },
            if row == er { if ec >= area_x { ec - area_x } else { 0 } } else { usize::MAX as int },
        ))
    }
}

/// The view of segments.
pub open spec fn segment_views(v: Seq<Segment>) -> Seq<(Seq<char>, usize, bool)> {
    v.map_values(|g: Segment| (g.text@, g.span, g.selected))
}

/// Cuts the spans of a rendered line where the selection starts and ends on screen row
/// `screen_row`; `None` when the row has no selection (the line stays as it is).
pub fn select_segments(
    spans: &Vec<String>,
    screen_row: u16,
    area_x: u16,
    sel_range: Option<(u16, u16, u16, u16)>,
) -> (r: Option<Vec<Segment>>)
    requires
        total_bytes(spans@.map_values(|t: String| t@)) <= usize::MAX,
    ensures
        match sel_range {
            None => r is None,
            Some(range) => match row_columns(screen_row, area_x, range) {
                None => r is None,
                Some((rs, re)) => r matches Some(v) && segment_views(v@) == line_segments(
                    spans@.map_values(|t: String| t@),
                    rs,
                    re,
                ),
            },
        },
{
    let (sr, sc, er, ec) = match sel_range {
        Some(r) => r,
        None => return None,
    };
    if screen_row < sr || screen_row > er {
        return None;
    }
    let rs: usize = if screen_row == sr {
        if sc >= area_x {
            (sc - area_x) as usize
        } else {
            0
        }
    } else {
        0
    };
    let re: usize = if screen_row == er {
        if ec >= area_x {
            (ec - area_x) as usize
        } else {
            0
        }
    } else {
        usize::MAX
    };
    let ghost texts = spans@.map_values(|t: String| t@);
    let mut out: Vec<Segment> = Vec::new();
    let mut col: usize = 0;
    let mut k: usize = 0;
    assert(texts.take(0) =~= Seq::<Seq<char>>::empty());
    while k < spans.len()
        invariant
            texts == spans@.map_values(|t: String| t@),
            total_bytes(texts) <= usize::MAX,
            k <= spans@.len(),
            col == total_bytes(texts.take(k as int)),
            segment_views(out@) == line_segments(texts.take(k as int), rs as int, re as int),
        decreases spans.len() - k,
    {
        proof {
            assert(texts.take(k + 1).drop_last() =~= texts.take(k as int));
            lemma_total_bytes_prefix(texts, k + 1);
        }
        let t = &spans[k];
        let len = t.as_str().as_bytes().len();
        let span_end = col + len;
        let ghost before = segment_views(out@);
        let ghost piece = span_segments(texts[k as int], col as int, rs as int, re as int);
        let re_next: usize = if re == usize::MAX {
            re
        } else {
            re + 1
        };
        if span_end <= rs || col > re {
            out.push(Segment { text: t.clone(), span: k, selected: false });
        } else if col >= rs && span_end <= re_next {
            out.push(Segment { text: t.clone(), span: k, selected: true });
        } else {
            let pieces = cut_runs(t.as_str(), col, rs, re);
            let mut j: usize = 0;
            while j < pieces.len()
                invariant
                    j <= pieces@.len(),
                    segment_views(out@) == before + piece.take(j as int).map_values(
                        |p: (Seq<char>, bool)| (p.0, k, p.1),
                    ),
                    pieces@.len() == piece.len(),
                    forall|q: int| 0 <= q < pieces@.len() ==> (#[trigger] pieces@[q]).0@ == piece[q].0
                        && pieces@[q].1 == piece[q].1,
                decreases pieces.len() - j,
            {
                let g = Segment { text: pieces[j].0.clone(), span: k, selected: pieces[j].1 };
                assert((g.text@, g.span, g.selected) == (piece[j as int].0, k, piece[j as int].1));
                let ghost out0 = out@;
                out.push(g);
                assert(segment_views(out@) =~= segment_views(out0).push((g.text@, g.span, g.selected)));
                assert(piece.take(j + 1).map_values(|p: (Seq<char>, bool)| (p.0, k, p.1)) =~= piece.take(
                    j as int,
                ).map_values(|p: (Seq<char>, bool)| (p.0, k, p.1)).push((piece[j as int].0, k, piece[j as int].1)));
                assert(segment_views(out@) =~= before + piece.take(j + 1).map_values(
                    |p: (Seq<char>, bool)| (p.0, k, p.1),
                ));
                j = j + 1;
            }
            assert(piece.take(pieces@.len() as int) =~= piece);
        }
        assert(segment_views(out@) =~= line_segments(texts.take(k + 1), rs as int, re as int));
        col = span_end;
        k = k + 1;
    }
    assert(texts.take(spans@.len() as int) =~= texts);
    Some(out)
}

proof fn lemma_total_bytes_prefix(texts: Seq<Seq<char>>, k: int)
    requires
        0 <= k <= texts.len(),
    ensures
        total_bytes(texts.take(k)) <= total_bytes(texts),
    decreases texts.len() - k,
{
    if k < texts.len() {
        lemma_total_bytes_prefix(texts, k + 1);
        assert(texts.take(k + 1).drop_last() =~= texts.take(k));
    } else {
        assert(texts.take(k) =~= texts);
    }
}

/// The runs of `t` at column `col` (see `runs`).
fn cut_runs(t: &str, col: usize, rs: usize, re: usize) -> (v: Vec<(String, bool)>)
    requires
        col + encode_utf8(t@).len() <= usize::MAX,
    ensures
        v@.len() == runs(t@, col as int, rs as int, re as int).len(),
        forall|q: int| 0 <= q < v@.len() ==> (#[trigger] v@[q]).0@ == runs(t@, col as int, rs as int, re as int)[q].0
            && v@[q].1 == runs(t@, col as int, rs as int, re as int)[q].1,
{
    let chars = chars_of(t);
    proof {
        lemma_chars_fit(t@);
    }
    let mut done: Vec<(String, bool)> = Vec::new();
    let mut cur: Vec<char> = Vec::new();
    let mut cur_sel: bool = false;
    let mut i: usize = 0;
    assert(chars@.take(0) =~= Seq::<char>::empty());
    while i < chars.len()
        invariant
            chars@ == t@,
            col + chars@.len() <= usize::MAX,
            i <= chars@.len(),
            i == 0 ==> done@.len() == 0 && cur@.len() == 0,
            i > 0 ==> cur@.len() > 0,
            ({
                let rv = runs(chars@.take(i as int), col as int, rs as int, re as int);
                let dv = done@.map_values(|p: (String, bool)| (p.0@, p.1));
                i > 0 ==> rv == dv.push((cur@, cur_sel))
            }),
        decreases chars.len() - i,
    {
        let ghost dv0 = done@.map_values(|p: (String, bool)| (p.0@, p.1));
        let ghost cur0 = cur@;
        let c = chars[i];
        let cc = col + i;
        let sel = cc >= rs && cc <= re;
        proof {
            assert(chars@.take(i + 1).drop_last() =~= chars@.take(i as int));
            assert(chars@.take(i + 1).last() == c);
            assert(sel == sel_at(col + (i + 1) - 1, rs as int, re as int));
        }
        let ghost rv0 = runs(chars@.take(i as int), col as int, rs as int, re as int);
        let ghost rv1 = runs(chars@.take(i + 1), col as int, rs as int, re as int);
        if i > 0 && sel == cur_sel {
            cur.push(c);
            proof {
                assert(rv0.drop_last() =~= dv0);
                assert(rv0.last() == (cur0, cur_sel));
                assert(rv1 == rv0.drop_last().push((rv0.last().0.push(c), sel)));
            }
        } else {
            proof {
                if i > 0 {
                    assert(rv0.last() == (cur0, cur_sel));
                } else {
                    assert(chars@.take(0) =~= Seq::<char>::empty());
                    assert(rv0.len() == 0);
                }
                assert(rv1 == rv0.push((seq![c], sel)));
            }
            if i > 0 {
                let seg = string_from_chars(&cur);
                done.push((seg, cur_sel));
                assert(done@.map_values(|p: (String, bool)| (p.0@, p.1)) =~= dv0.push((cur0, cur_sel)));
            }
            cur = Vec::new();
            cur.push(c);
            cur_sel = sel;
            assert(cur@ =~= seq![c]);
        }
        assert(runs(chars@.take(i + 1), col as int, rs as int, re as int) =~= done@.map_values(
            |p: (String, bool)| (p.0@, p.1),
        ).push((cur@, cur_sel)));
        i = i + 1;
    }
    if i > 0 {
        let seg = string_from_chars(&cur);
        done.push((seg, cur_sel));
    }
    proof {
        assert(chars@.take(chars@.len() as int) =~= chars@);
        let rv = runs(t@, col as int, rs as int, re as int);
        let dv = done@.map_values(|p: (String, bool)| (p.0@, p.1));
        if i == 0 {
            assert(t@.len() == 0);
        }
        assert(rv =~= dv);
        assert forall|q: int| 0 <= q < done@.len() implies (#[trigger] done@[q]).0@ == rv[q].0
            && done@[q].1 == rv[q].1 by {
            assert(dv[q] == (done@[q].0@, done@[q].1));
        }
    }
    done
}

/// A text has at most as many characters as UTF-8 bytes.
proof fn lemma_chars_fit(s: Seq<char>)
    ensures
        s.len() <= encode_utf8(s).len(),
{
    let mut k: int = 0;
    assert(s.take(0) =~= Seq::<char>::empty());
    lemma_bytes_monotone_chars(s, s.len() as int);
    assert(s.take(s.len() as int) =~= s);
}

proof fn lemma_bytes_monotone_chars(s: Seq<char>, k: int)
    requires
        0 <= k <= s.len(),
    ensures
        k <= encode_utf8(s.take(k)).len(),
    decreases k,
{
    if k > 0 {
        lemma_bytes_monotone_chars(s, k - 1);
        lemma_encode_utf8_take_push(s, k - 1);
        assert(utf8_len(s[k - 1]) >= 1) by {
            reveal_with_fuel(encode_utf8, 2);
        }
    } else {
        assert(s.take(0) =~= Seq::<char>::empty());
    }
}

} // verus!
