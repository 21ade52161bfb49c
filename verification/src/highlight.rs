//! Syntax highlighting of output lines: which byte ranges get which colour.
use vstd::prelude::*;

use crate::patterns::{find_all, regex_error, regex_find};

verus! {

/// What a highlighted range is, in rule order (earlier rules win where ranges overlap).
#[derive(Clone, Copy, PartialEq, Eq, Structural, Debug)]
pub enum HighlightKind {
    /// AT commands (`AT+CMD...`).
    AtCommand,
    /// OK / READY responses.
    Success,
    /// ERROR / FAIL responses.
    Failure,
    /// Hex values (`0xFF`).
    HexValue,
    /// IP addresses.
    IpAddress,
    /// Quoted strings.
    Quoted,
    /// Standalone numbers.
    Number,
}

/// A highlighted byte range `start..end` and its kind.
pub type Span = (usize, usize, HighlightKind);

/// Number of highlight rules.
pub const RULE_COUNT: usize = 7;

/// The kind of rule `i`, in the order the rules are tried.
pub open spec fn kind_at(i: int) -> HighlightKind {
    if i == 0 {
        HighlightKind::AtCommand
    } else if i == 1 {
        HighlightKind::Success
    } else if i == 2 {
        HighlightKind::Failure
    } else if i == 3 {
        HighlightKind::HexValue
    } else if i == 4 {
        HighlightKind::IpAddress
    } else if i == 5 {
        HighlightKind::Quoted
    } else {
        HighlightKind::Number
    }
}

/// The pattern of each rule.
pub open spec fn pattern_text(k: HighlightKind) -> Seq<char> {
    match k {
        HighlightKind::AtCommand => "(?i)\\bAT\\+?\\w*"@,
        HighlightKind::Success => "\\b(OK|READY|SUCCESS|DONE|PASS(ED)?)\\b"@,
        HighlightKind::Failure => "(?i)\\b(ERROR|FAIL(ED|URE)?|FAULT|PANIC|ABORT)\\b"@,
        HighlightKind::HexValue => "\\b0x[0-9A-Fa-f]+\\b"@,
        HighlightKind::IpAddress => "\\b\\d{1,3}\\.\\d{1,3}\\.\\d{1,3}\\.\\d{1,3}\\b"@,
        HighlightKind::Quoted => "\"[^\"]*\""@,
        HighlightKind::Number => "\\b\\d+(\\.\\d+)?\\b"@,
    }
}

/// The matches of rule `k` in `text` (none if its pattern did not compile).
pub open spec fn rule_matches(k: HighlightKind, text: Seq<char>) -> Seq<(usize, usize)> {
    if regex_error(pattern_text(k)) is None {
        regex_find(pattern_text(k), text)
    } else {
        Seq::empty()
    }
}

/// Range `start..end` overlaps the range of `span`.
pub open spec fn overlaps(span: Span, start: usize, end: usize) -> bool {
    span.0 < end && start < span.1
}

/// A match is kept when it overlaps no range kept before it.
pub open spec fn accept(acc: Seq<Span>, m: (usize, usize), k: HighlightKind) -> Seq<Span> {
    if exists|i: int| 0 <= i < acc.len() && overlaps(#[trigger] acc[i], m.0, m.1) {
        acc
    } else {
        acc.push((m.0, m.1, k))
    }
}

/// Offers each match of `ms`, in order.
pub open spec fn accept_all(acc: Seq<Span>, ms: Seq<(usize, usize)>, k: HighlightKind) -> Seq<Span>
    decreases ms.len(),
{
    if ms.len() == 0 {
        acc
    } else {
        accept(accept_all(acc, ms.drop_last(), k), ms.last(), k)
    }
}

/// The ranges kept from the first `n` rules, in the order they were kept.
pub open spec fn accepted(text: Seq<char>, n: nat) -> Seq<Span>
    decreases n,
{
    if n == 0 {
        Seq::empty()
    } else {
        let k = kind_at(n - 1);
        accept_all(accepted(text, (n - 1) as nat), rule_matches(k, text), k)
    }
}

/// `x` placed after every range of `sorted` that starts no later than it.
pub open spec fn insert_by_start(sorted: Seq<Span>, x: Span) -> Seq<Span>
    decreases sorted.len(),
{
    if sorted.len() == 0 {
        seq![x]
    } else if sorted.last().0 <= x.0 {
        sorted.push(x)
    } else {
        insert_by_start(sorted.drop_last(), x).push(sorted.last())
    }
}

/// `s` sorted by start, ranges with equal starts kept in their order (a stable sort).
pub open spec fn sort_by_start(s: Seq<Span>) -> Seq<Span>
    decreases s.len(),
{
    if s.len() == 0 {
        s
    } else {
        insert_by_start(sort_by_start(s.drop_last()), s.last())
    }
}

/// The highlighted ranges of a line.
pub open spec fn highlights(text: Seq<char>) -> Seq<Span> {
    sort_by_start(accepted(text, RULE_COUNT as nat))
}

/// The kind of rule `i`.
fn rule_kind(i: usize) -> (k: HighlightKind)
    requires
        i < RULE_COUNT,
    ensures
        k == kind_at(i as int),
{
    match i {
        0 => HighlightKind::AtCommand,
        1 => HighlightKind::Success,
        2 => HighlightKind::Failure,
        3 => HighlightKind::HexValue,
        4 => HighlightKind::IpAddress,
        5 => HighlightKind::Quoted,
        _ => HighlightKind::Number,
    }
}

/// The pattern of rule kind `k`.
pub fn rule_pattern(k: HighlightKind) -> (p: &'static str)
    ensures
        p@ == pattern_text(k),
{
    match k {
        HighlightKind::AtCommand => "(?i)\\bAT\\+?\\w*",
        HighlightKind::Success => "\\b(OK|READY|SUCCESS|DONE|PASS(ED)?)\\b",
        HighlightKind::Failure => "(?i)\\b(ERROR|FAIL(ED|URE)?|FAULT|PANIC|ABORT)\\b",
        HighlightKind::HexValue => "\\b0x[0-9A-Fa-f]+\\b",
        HighlightKind::IpAddress => "\\b\\d{1,3}\\.\\d{1,3}\\.\\d{1,3}\\.\\d{1,3}\\b",
        HighlightKind::Quoted => "\"[^\"]*\"",
        HighlightKind::Number => "\\b\\d+(\\.\\d+)?\\b",
    }
}

/// Whether `start..end` overlaps a range of `ranges`.
fn overlaps_any(ranges: &Vec<Span>, start: usize, end: usize) -> (b: bool)
    ensures
        b == exists|i: int| 0 <= i < ranges@.len() && overlaps(#[trigger] ranges@[i], start, end),
{
    let mut i: usize = 0;
    while i < ranges.len()
        invariant
            i <= ranges@.len(),
            forall|j: int| 0 <= j < i ==> !overlaps(#[trigger] ranges@[j], start, end),
        decreases ranges.len() - i,
    {
        let r = ranges[i];
        if r.0 < end && start < r.1 {
            assert(overlaps(ranges@[i as int], start, end));
            return true;
        }
        i = i + 1;
    }
    false
}

/// Placing `x` after the ranges that start no later than it, at the position `p` that
/// separates them from those starting later, is `insert_by_start`.
proof fn lemma_insert_at(sorted: Seq<Span>, x: Span, p: int)
    requires
        0 <= p <= sorted.len(),
        p > 0 ==> sorted[p - 1].0 <= x.0,
        forall|j: int| p <= j < sorted.len() ==> #[trigger] sorted[j].0 > x.0,
    ensures
        insert_by_start(sorted, x) == sorted.take(p).push(x) + sorted.skip(p),
    decreases sorted.len(),
{
    if sorted.len() == 0 {
        assert(sorted.take(p).push(x) + sorted.skip(p) =~= seq![x]);
    } else if sorted.last().0 <= x.0 {
        assert(p == sorted.len());
        assert(sorted.take(p).push(x) + sorted.skip(p) =~= sorted.push(x));
    } else {
        let d = sorted.drop_last();
        lemma_insert_at(d, x, p);
        assert(d.take(p).push(x) + d.skip(p) + seq![sorted.last()] =~= sorted.take(p).push(x)
            + sorted.skip(p));
        assert((d.take(p).push(x) + d.skip(p)).push(sorted.last()) =~= d.take(p).push(x) + d.skip(
            p,
        ) + seq![sorted.last()]);
    }
}

/// Stable insertion sort by start.
fn sort_spans(s: &Vec<Span>) -> (r: Vec<Span>)
    ensures
        r@ == sort_by_start(s@),
{
    let mut sorted: Vec<Span> = Vec::new();
    let mut i: usize = 0;
    assert(s@.take(0) =~= Seq::<Span>::empty());
    while i < s.len()
        invariant
            i <= s@.len(),
            sorted@ == sort_by_start(s@.take(i as int)),
        decreases s.len() - i,
    {
        let x = s[i];
        let mut p: usize = sorted.len();
        while p > 0 && sorted[p - 1].0 > x.0
            invariant
                p <= sorted@.len(),
                forall|j: int| p <= j < sorted@.len() ==> #[trigger] sorted@[j].0 > x.0,
            decreases p,
        {
            p = p - 1;
        }
        proof {
            lemma_insert_at(sorted@, x, p as int);
            assert(s@.take(i + 1).drop_last() =~= s@.take(i as int));
        }
        let ghost before = sorted@;
        sorted.insert(p, x);
        assert(sorted@ =~= before.take(p as int).push(x) + before.skip(p as int));
        i = i + 1;
    }
    assert(s@.take(s@.len() as int) =~= s@);
    sorted
}

/// Compute highlighted ranges for a line of text: `(start, end, kind)` byte ranges sorted by
/// start. Non-overlapping: the first match kept wins for any position.
pub fn highlight_line(text: &str) -> (r: Vec<Span>)
    ensures
        r@ == highlights(text@),
{
    let mut ranges: Vec<Span> = Vec::new();
    let mut rule: usize = 0;
    while rule < RULE_COUNT
        invariant
            rule <= RULE_COUNT,
            ranges@ == accepted(text@, rule as nat),
        decreases RULE_COUNT - rule,
    {
        let kind = rule_kind(rule);
        let ghost base = ranges@;
        match find_all(rule_pattern(kind), text) {
            Some(ms) => {
                let mut i: usize = 0;
                assert(ms@.take(0) =~= Seq::<(usize, usize)>::empty());
                while i < ms.len()
                    invariant
                        i <= ms@.len(),
                        ranges@ == accept_all(base, ms@.take(i as int), kind),
                    decreases ms.len() - i,
                {
                    let m = ms[i];
                    proof {
                        assert(ms@.take(i + 1).drop_last() =~= ms@.take(i as int));
                    }
                    if !overlaps_any(&ranges, m.0, m.1) {
                        ranges.push((m.0, m.1, kind));
                    }
                    i = i + 1;
                }
                assert(ms@.take(ms@.len() as int) =~= ms@);
            },
            None => {
                assert(rule_matches(kind, text@) =~= Seq::<(usize, usize)>::empty());
            },
        }
        rule = rule + 1;
    }
    sort_spans(&ranges)
}

/// Sorting by start gives a sequence sorted by start, of the same length.
proof fn lemma_sorted_by_start(s: Seq<Span>)
    ensures
        forall|i: int, j: int| 0 <= i < j < sort_by_start(s).len() ==> #[trigger] sort_by_start(s)[i].0
            <= #[trigger] sort_by_start(s)[j].0,
        sort_by_start(s).len() == s.len(),
    decreases s.len(),
{
    if s.len() > 0 {
        lemma_sorted_by_start(s.drop_last());
        lemma_insert_sorted(sort_by_start(s.drop_last()), s.last());
    }
}

/// Where `insert_by_start` puts `x`: after the last range that starts no later than it.
proof fn lemma_insert_pos(sorted: Seq<Span>, x: Span) -> (p: int)
    ensures
        0 <= p <= sorted.len(),
        p > 0 ==> sorted[p - 1].0 <= x.0,
        forall|j: int| p <= j < sorted.len() ==> #[trigger] sorted[j].0 > x.0,
    decreases sorted.len(),
{
    if sorted.len() == 0 {
        0
    } else if sorted.last().0 <= x.0 {
        sorted.len() as int
    } else {
        let p = lemma_insert_pos(sorted.drop_last(), x);
        assert forall|j: int| p <= j < sorted.len() implies #[trigger] sorted[j].0 > x.0 by {
            if j < sorted.len() - 1 {
                assert(sorted.drop_last()[j] == sorted[j]);
            }
        }
        p
    }
}

/// Inserting by start into a sorted sequence keeps it sorted and adds one element.
proof fn lemma_insert_sorted(sorted: Seq<Span>, x: Span)
    requires
        forall|i: int, j: int| 0 <= i < j < sorted.len() ==> #[trigger] sorted[i].0 <= #[trigger] sorted[j].0,
    ensures
        forall|i: int, j: int| 0 <= i < j < insert_by_start(sorted, x).len() ==> #[trigger] insert_by_start(sorted, x)[i].0
            <= #[trigger] insert_by_start(sorted, x)[j].0,
        insert_by_start(sorted, x).len() == sorted.len() + 1,
{
    let p = lemma_insert_pos(sorted, x);
    lemma_insert_at(sorted, x, p);
    let r = sorted.take(p).push(x) + sorted.skip(p);
    assert(r.len() == sorted.len() + 1);
    assert forall|i: int, j: int| 0 <= i < j < r.len() implies #[trigger] r[i].0 <= #[trigger] r[j].0 by {
        if i < p && j < p {
            assert(r[i] == sorted[i] && r[j] == sorted[j]);
        } else if i < p && j == p {
            assert(r[i] == sorted[i]);
            assert(sorted[i].0 <= sorted[p - 1].0);
        } else if i < p {
            assert(r[i] == sorted[i] && r[j] == sorted[j - 1]);
        } else if i == p {
            assert(r[j] == sorted[j - 1]);
        } else {
            assert(r[i] == sorted[i - 1] && r[j] == sorted[j - 1]);
        }
    }
}

/// No two ranges of `s` overlap.
pub open spec fn disjoint(s: Seq<Span>) -> bool {
    forall|i: int, j: int|
        0 <= i < s.len() && 0 <= j < s.len() && i != j ==> !overlaps(#[trigger] s[i], #[trigger] s[j].0, s[j].1)
}

/// Keeping a match never makes kept ranges overlap.
proof fn lemma_accept_all_disjoint(acc: Seq<Span>, ms: Seq<(usize, usize)>, k: HighlightKind)
    requires
        disjoint(acc),
    ensures
        disjoint(accept_all(acc, ms, k)),
    decreases ms.len(),
{
    if ms.len() > 0 {
        lemma_accept_all_disjoint(acc, ms.drop_last(), k);
        let a = accept_all(acc, ms.drop_last(), k);
        let m = ms.last();
        if !(exists|i: int| 0 <= i < a.len() && overlaps(#[trigger] a[i], m.0, m.1)) {
            let r = a.push((m.0, m.1, k));
            assert forall|i: int, j: int|
                0 <= i < r.len() && 0 <= j < r.len() && i != j implies !overlaps(#[trigger] r[i], #[trigger] r[j].0, r[j].1) by {
                if i < a.len() && j < a.len() {
                    assert(r[i] == a[i] && r[j] == a[j]);
                } else if i < a.len() {
                    assert(r[i] == a[i]);
                    assert(!overlaps(a[i], m.0, m.1));
                } else {
                    assert(r[j] == a[j]);
                    assert(!overlaps(a[j], m.0, m.1));
                }
            }
        }
    }
}

proof fn lemma_accepted_disjoint(text: Seq<char>, n: nat)
    ensures
        disjoint(accepted(text, n)),
    decreases n,
{
    if n > 0 {
        lemma_accepted_disjoint(text, (n - 1) as nat);
        let k = kind_at(n - 1);
        lemma_accept_all_disjoint(accepted(text, (n - 1) as nat), rule_matches(k, text), k);
    }
}

/// Sorting keeps only ranges of the input, and keeps them apart.
proof fn lemma_sort_disjoint(s: Seq<Span>)
    ensures
        forall|i: int| 0 <= i < sort_by_start(s).len() ==> s.contains(#[trigger] sort_by_start(s)[i]),
        disjoint(s) ==> disjoint(sort_by_start(s)),
    decreases s.len(),
{
    if s.len() > 0 {
        let d = s.drop_last();
        let x = s.last();
        lemma_sort_disjoint(d);
        lemma_sorted_by_start(d);
        let sd = sort_by_start(d);
        let p = lemma_insert_pos(sd, x);
        lemma_insert_at(sd, x, p);
        let r = sd.take(p).push(x) + sd.skip(p);
        assert(r.len() == sd.len() + 1);
        assert forall|i: int| 0 <= i < r.len() implies s.contains(#[trigger] r[i]) by {
            if i < p {
                assert(r[i] == sd[i]);
                let w = choose|w: int| 0 <= w < d.len() && d[w] == sd[i];
                assert(s[w] == r[i]);
            } else if i == p {
                assert(s[s.len() - 1] == r[i]);
            } else {
                assert(r[i] == sd[i - 1]);
                let w = choose|w: int| 0 <= w < d.len() && d[w] == sd[i - 1];
                assert(s[w] == r[i]);
            }
        }
        if disjoint(s) {
            assert(disjoint(d)) by {
                assert forall|i: int, j: int|
                    0 <= i < d.len() && 0 <= j < d.len() && i != j implies !overlaps(#[trigger] d[i], #[trigger] d[j].0, d[j].1) by {
                    assert(d[i] == s[i] && d[j] == s[j]);
                }
            }
            assert forall|i: int| 0 <= i < sd.len() implies !overlaps(#[trigger] sd[i], x.0, x.1) && !overlaps(x, sd[i].0, sd[i].1) by {
                let w = choose|w: int| 0 <= w < d.len() && d[w] == sd[i];
                assert(s[w] == sd[i]);
                assert(!overlaps(s[w], s[s.len() - 1].0, s[s.len() - 1].1));
                assert(!overlaps(s[s.len() - 1], s[w].0, s[w].1));
            }
            assert forall|i: int, j: int|
                0 <= i < r.len() && 0 <= j < r.len() && i != j implies !overlaps(#[trigger] r[i], #[trigger] r[j].0, r[j].1) by {
                let si = if i < p { i } else { i - 1 };
                let sj = if j < p { j } else { j - 1 };
                if i != p && j != p {
                    assert(r[i] == sd[si] && r[j] == sd[sj]);
                } else if i == p {
                    assert(r[j] == sd[sj]);
                } else {
                    assert(r[i] == sd[si]);
                }
            }
        }
    }
}

/// The highlighted ranges of a line never overlap, and come sorted by start.
pub proof fn law_highlights_disjoint_and_sorted(text: Seq<char>)
    ensures
        disjoint(highlights(text)),
        forall|i: int, j: int| 0 <= i < j < highlights(text).len() ==> #[trigger] highlights(text)[i].0
            <= #[trigger] highlights(text)[j].0,
{
    lemma_accepted_disjoint(text, RULE_COUNT as nat);
    lemma_sort_disjoint(accepted(text, RULE_COUNT as nat));
    lemma_sorted_by_start(accepted(text, RULE_COUNT as nat));
}

} // verus!
