//! Command history with ↑/↓ navigation, prefix suggestions and usage ranking.
//!
//! Reading and writing the history file is done by the caller: `load_entries` takes the lines
//! that were read, and `entries` gives what is to be written after each `push`.
use vstd::prelude::*;
use vstd::utf8::encode_utf8;

use crate::text::{chars_of, lower_text, seq_starts_with, starts_with, to_lowercase};

verus! {

/// Abstract state of a command history.
pub ghost struct HistoryView {
    pub entries: Seq<Seq<char>>,
    pub max_entries: nat,
    /// Index of the entry shown while navigating; `None` when not navigating.
    pub position: Option<nat>,
    /// Input that was being typed when navigation started.
    pub saved_input: Seq<char>,
    pub file_path: Option<Seq<char>>,
}

/// Persistent command history.
pub struct CommandHistory {
    entries: Vec<String>,
    max_entries: usize,
    position: Option<usize>,
    saved_input: String,
    file_path: Option<String>,
}

/// The characters of each string, in order.
pub open spec fn strings_view(v: Seq<String>) -> Seq<Seq<char>> {
    v.map_values(|s: String| s@)
}

/// `entries` with the oldest dropped until at most `max` remain.
pub open spec fn keep_newest(entries: Seq<Seq<char>>, max: nat) -> Seq<Seq<char>> {
    if entries.len() > max {
        entries.skip(entries.len() - max)
    } else {
        entries
    }
}

/// The non-empty lines of `lines`, in order.
pub open spec fn non_empty(lines: Seq<Seq<char>>) -> Seq<Seq<char>> {
    lines.filter(|l: Seq<char>| l.len() > 0)
}

/// Number of entries equal to `s`.
pub open spec fn occurrences(entries: Seq<Seq<char>>, s: Seq<char>) -> nat
    decreases entries.len(),
{
    if entries.len() == 0 {
        0
    } else {
        occurrences(entries.drop_last(), s) + if entries.last() == s {
            1nat
        } else {
            0nat
        }
    }
}

/// Entry `e` completes `prefix`: it starts with it when both are lower-cased, and it is
/// longer in bytes.
pub open spec fn completes(e: Seq<char>, prefix: Seq<char>) -> bool {
    &&& seq_starts_with(lower_text(e), lower_text(prefix))
    &&& encode_utf8(e).len() > encode_utf8(prefix).len()
}

/// `r` lists the `n` most frequent entries without repetition, most frequent first; every
/// entry left out is used at most as often as the last one listed.
pub open spec fn is_top_commands(entries: Seq<Seq<char>>, n: nat, r: Seq<Seq<char>>) -> bool {
    &&& r.len() <= n
    &&& forall|i: int| 0 <= i < r.len() ==> entries.contains(#[trigger] r[i])
    &&& forall|i: int, j: int| 0 <= i < j < r.len() ==> r[i] != r[j]
    &&& forall|i: int, j: int|
        0 <= i < j < r.len() ==> occurrences(entries, #[trigger] r[i]) >= occurrences(entries, #[trigger] r[j])
    &&& forall|e: Seq<char>|
        #![trigger entries.contains(e), r.contains(e)]
        entries.contains(e) && !r.contains(e) ==> r.len() == n && (n > 0 ==> occurrences(
            entries,
            e,
        ) <= occurrences(entries, r[n - 1]))
}

/// The characters of an optional string.
pub open spec fn opt_view(o: Option<String>) -> Option<Seq<char>> {
    match o {
        Some(s) => Some(s@),
        None => None,
    }
}

/// Position shown after stepping back from `v`.
pub open spec fn previous_position(v: HistoryView) -> nat {
    match v.position {
        None => (v.entries.len() - 1) as nat,
        Some(q) => if q == 0 {
            0nat
        } else {
            (q - 1) as nat
        },
    }
}

/// State after stepping back (towards older entries) while `input` is typed.
pub open spec fn previous_view(v: HistoryView, input: Seq<char>) -> HistoryView {
    if v.entries.len() == 0 {
        v
    } else {
        HistoryView {
            position: Some(previous_position(v)),
            saved_input: if v.position is None {
                input
            } else {
                v.saved_input
            },
            ..v
        }
    }
}

/// Text shown after stepping back from `v`.
pub open spec fn previous_shown(v: HistoryView) -> Option<Seq<char>> {
    if v.entries.len() == 0 {
        None
    } else {
        Some(v.entries[previous_position(v) as int])
    }
}

/// State after stepping forward (towards newer entries).
pub open spec fn next_view(v: HistoryView) -> HistoryView {
    match v.position {
        None => v,
        Some(p) => if p + 1 >= v.entries.len() {
            HistoryView { position: None, ..v }
        } else {
            HistoryView { position: Some((p + 1) as nat), ..v }
        },
    }
}

/// Text shown after stepping forward: the next entry, or the saved input past the newest.
pub open spec fn next_shown(v: HistoryView) -> Option<Seq<char>> {
    match v.position {
        None => None,
        Some(p) => if p + 1 >= v.entries.len() {
            Some(v.saved_input)
        } else {
            Some(v.entries[p + 1 as int])
        },
    }
}

/// Stepping forward right after stepping back shows again what was on screen before: the
/// text being typed when navigation had not started, otherwise the same entry at the same
/// position. (At the oldest entry stepping back does not move, so that position is excluded.)
pub proof fn law_next_undoes_previous(v: HistoryView, input: Seq<char>)
    requires
        v.entries.len() > 0,
        v.position matches Some(p) ==> 0 < p < v.entries.len(),
    ensures
        v.position is None ==> next_shown(previous_view(v, input)) == Some(input) && next_view(
            previous_view(v, input),
        ).position is None,
        v.position matches Some(p) ==> next_shown(previous_view(v, input)) == Some(v.entries[p as int])
            && next_view(previous_view(v, input)).position == v.position,
{
}

/// The state after stepping back `k` times while `input` is typed.
pub open spec fn previous_steps(v: HistoryView, input: Seq<char>, k: nat) -> HistoryView
    decreases k,
{
    if k == 0 {
        v
    } else {
        previous_view(previous_steps(v, input, (k - 1) as nat), input)
    }
}

/// The state after stepping forward `k` times.
pub open spec fn next_steps(v: HistoryView, k: nat) -> HistoryView
    decreases k,
{
    if k == 0 {
        v
    } else {
        next_view(next_steps(v, (k - 1) as nat))
    }
}

/// Stepping back `k` times from a history that is not navigating shows the `k`-th newest entry.
pub proof fn lemma_previous_steps(v: HistoryView, input: Seq<char>, k: nat)
    requires
        v.position is None,
        1 <= k <= v.entries.len(),
    ensures
        previous_steps(v, input, k) == (HistoryView {
            position: Some((v.entries.len() - k) as nat),
            saved_input: input,
            ..v
        }),
    decreases k,
{
    if k > 1 {
        lemma_previous_steps(v, input, (k - 1) as nat);
    } else {
        assert(previous_steps(v, input, 0) == v);
    }
}

/// Stepping forward `j` times from position `q` moves to `q + j`, or ends navigation once past
/// the newest entry.
pub proof fn lemma_next_steps(w: HistoryView, q: nat, j: nat)
    requires
        w.position == Some(q),
        q + j <= w.entries.len(),
    ensures
        q + j < w.entries.len() ==> next_steps(w, j) == (HistoryView { position: Some(q + j), ..w }),
        q + j == w.entries.len() && j > 0 ==> next_steps(w, j) == (HistoryView { position: None, ..w }),
    decreases j,
{
    if j > 0 {
        lemma_next_steps(w, q, (j - 1) as nat);
    }
}

/// Stepping back `k` times and then forward `k` times retraces the way: the forward steps show
/// the newer entries in turn and finally the text that was being typed, which ends navigation,
/// so that one step more shows nothing.
pub proof fn law_k_steps_back_and_forth(v: HistoryView, input: Seq<char>, k: nat)
    requires
        v.position is None,
        1 <= k <= v.entries.len(),
    ensures
        ({
            let n = v.entries.len();
            let w = previous_steps(v, input, k);
            &&& forall|j: nat|
                1 <= j < k ==> #[trigger] next_shown(next_steps(w, (j - 1) as nat)) == Some(
                    v.entries[n - k + j],
                )
            &&& next_shown(next_steps(w, (k - 1) as nat)) == Some(input)
            &&& next_steps(w, k).position is None
            &&& next_shown(next_steps(w, k)) is None
            &&& next_steps(w, k).entries == v.entries
        }),
{
    let n = v.entries.len();
    lemma_previous_steps(v, input, k);
    let w = previous_steps(v, input, k);
    let q = (n - k) as nat;
    assert forall|j: nat| 1 <= j < k implies #[trigger] next_shown(next_steps(w, (j - 1) as nat)) == Some(
        v.entries[n - k + j],
    ) by {
        lemma_next_steps(w, q, (j - 1) as nat);
    }
    lemma_next_steps(w, q, (k - 1) as nat);
    lemma_next_steps(w, q, k);
}

impl View for CommandHistory {
    type V = HistoryView;

    closed spec fn view(&self) -> HistoryView {
        HistoryView {
            entries: strings_view(self.entries@),
            max_entries: self.max_entries as nat,
            position: match self.position {
                Some(p) => Some(p as nat),
                None => None,
            },
            saved_input: self.saved_input@,
            file_path: match self.file_path {
                Some(p) => Some(p@),
                None => None,
            },
        }
    }
}

impl CommandHistory {
    /// The navigation position, when set, indexes an entry.
    pub closed spec fn wf(&self) -> bool {
        &&& self.position matches Some(p) ==> p < self.entries@.len()
        &&& self.entries@.len() <= self.max_entries
    }

    /// A well-formed history never holds more than `max_entries` entries.
    pub proof fn lemma_bounded(&self)
        requires
            self.wf(),
        ensures
            self@.entries.len() <= self@.max_entries,
    {
    }

    /// An empty history kept in the default place (`yapper/history` in the user's data
    /// directory, when that is known); the stored lines are added with `load_entries`.
    pub fn new(max_entries: usize) -> (h: Self)
        ensures
            h.wf(),
            h@.entries == Seq::<Seq<char>>::empty(),
            h@.max_entries == max_entries,
            h@.position is None,
            h@.saved_input == Seq::<char>::empty(),
            h@.file_path matches Some(p) ==> crate::paths::ends_with_component(p, "history"@),
    {
        Self::with_path(max_entries, crate::paths::default_history_path())
    }

    /// An empty history kept at the configured file (`~` standing for the home directory), or
    /// in the default place when none is configured; the stored lines are added with
    /// `load_entries`.
    pub fn from_config(max_entries: usize, file: &str) -> (h: Self)
        ensures
            h.wf(),
            h@.entries == Seq::<Seq<char>>::empty(),
            h@.max_entries == max_entries,
            h@.position is None,
            h@.saved_input == Seq::<char>::empty(),
            ({
                let t = crate::text::trimmed(file@);
                t.len() > 0 && t != "~"@ && !crate::text::seq_starts_with(t, "~/"@) ==> h@.file_path
                    == Some(t)
            }),
            crate::text::trimmed(file@).len() == 0 ==> (h@.file_path matches Some(p)
                ==> crate::paths::ends_with_component(p, "history"@)),
    {
        let file_path = match crate::paths::expand_path(file) {
            Some(p) => Some(p),
            None => crate::paths::default_history_path(),
        };
        Self::with_path(max_entries, file_path)
    }

    /// A history without a backing file.
    pub fn new_in_memory(max_entries: usize) -> (h: Self)
        ensures
            h.wf(),
            h@ == (HistoryView {
                entries: Seq::empty(),
                max_entries: max_entries as nat,
                position: None,
                saved_input: Seq::empty(),
                file_path: None,
            }),
    {
        Self::with_path(max_entries, None)
    }

    /// An empty history that is stored at `file_path`; the stored lines are added with
    /// `load_entries`.
    pub fn with_path(max_entries: usize, file_path: Option<String>) -> (h: Self)
        ensures
            h.wf(),
            h@ == (HistoryView {
                entries: Seq::empty(),
                max_entries: max_entries as nat,
                position: None,
                saved_input: Seq::empty(),
                file_path: match file_path {
                    Some(p) => Some(p@),
                    None => None,
                },
            }),
    {
        let h = CommandHistory {
            entries: Vec::new(),
            max_entries,
            position: None,
            saved_input: String::new(),
            file_path,
        };
        assert(strings_view(h.entries@) =~= Seq::<Seq<char>>::empty());
        h
    }

    /// Adds the lines read from the history file: empty lines are skipped, and the oldest
    /// entries are dropped until at most `max_entries` remain.
    pub fn load_entries(&mut self, lines: Vec<String>)
        requires
            old(self).wf(),
            old(self)@.position is None,
        ensures
            final(self).wf(),
            final(self)@ == (HistoryView {
                entries: keep_newest(
                    old(self)@.entries + non_empty(strings_view(lines@)),
                    old(self)@.max_entries,
                ),
                ..old(self)@
            }),
    {
        let ghost start = strings_view(self.entries@);
        let mut i: usize = 0;
        while i < lines.len()
            invariant
                i <= lines@.len(),
                self.position == old(self).position,
                self.max_entries == old(self).max_entries,
                self.saved_input == old(self).saved_input,
                self.file_path == old(self).file_path,
                strings_view(self.entries@) == start + non_empty(strings_view(lines@.take(i as int))),
                self.position matches Some(p) ==> p < self.entries@.len(),
            decreases lines.len() - i,
        {
            let line = &lines[i];
            proof {
                assert(strings_view(lines@.take(i + 1)) =~= strings_view(lines@.take(i as int)).push(line@));
                non_empty_push(strings_view(lines@.take(i as int)), line@);
            }
            if line.as_str().unicode_len() > 0 {
                let ghost before = self.entries@;
                self.entries.push(line.clone());
                proof {
                    assert(strings_view(self.entries@) =~= strings_view(before).push(line@));
                    assert(strings_view(self.entries@) =~= start + non_empty(
                        strings_view(lines@.take(i + 1)),
                    ));
                }
            }
            i = i + 1;
        }
        proof {
            assert(lines@.take(lines@.len() as int) =~= lines@);
        }
        self.trim();
    }

    /// Drops the oldest entries until at most `max_entries` remain.
    fn trim(&mut self)
        requires
            old(self).position matches Some(p) ==> p < old(self).entries@.len(),
        ensures
            final(self).max_entries == old(self).max_entries,
            final(self).saved_input == old(self).saved_input,
            final(self).file_path == old(self).file_path,
            strings_view(final(self).entries@) == keep_newest(
                strings_view(old(self).entries@),
                old(self).max_entries as nat,
            ),
            old(self).entries@.len() <= old(self).max_entries ==> final(self).position == old(
                self,
            ).position,
            old(self).entries@.len() > old(self).max_entries ==> final(self).position is None,
            final(self).wf(),
    {
        let ghost all = strings_view(self.entries@);
        if self.entries.len() > self.max_entries {
            self.position = None;
        }
        while self.entries.len() > self.max_entries
            invariant
                self.max_entries == old(self).max_entries,
                self.saved_input == old(self).saved_input,
                self.file_path == old(self).file_path,
                all.len() >= self.entries@.len(),
                strings_view(self.entries@) == all.skip(all.len() - self.entries@.len()),
                all.len() > self.max_entries ==> self.entries@.len() >= self.max_entries,
                all.len() > self.max_entries ==> self.position is None,
                all.len() <= self.max_entries ==> self.entries@.len() == all.len() && self.position
                    == old(self).position,
            decreases self.entries.len(),
        {
            let ghost before = strings_view(self.entries@);
            self.entries.remove(0);
            proof {
                assert(strings_view(self.entries@) =~= before.drop_first());
                assert(all.skip(all.len() - self.entries@.len()) =~= all.skip(
                    all.len() - (self.entries@.len() + 1),
                ).drop_first());
            }
        }
        proof {
            if all.len() <= self.max_entries {
                assert(all.skip(0) =~= all);
            }
        }
    }

    pub fn max_entries(&self) -> (m: usize)
        ensures
            m == self@.max_entries,
    {
        self.max_entries
    }

    pub fn file_path(&self) -> (p: Option<&String>)
        ensures
            match p {
                Some(s) => self@.file_path == Some(s@),
                None => self@.file_path is None,
            },
    {
        self.file_path.as_ref()
    }

    /// Adds a command: empty commands and repeats of the newest entry are ignored; otherwise
    /// the command becomes the newest entry, the oldest are dropped down to `max_entries`, and
    /// navigation stops.
    pub fn push(&mut self, command: String)
        requires
            old(self).wf(),
        ensures
            final(self).wf(),
            ({
                let e = old(self)@.entries;
                if command@.len() == 0 || (e.len() > 0 && e.last() == command@) {
                    final(self)@ == old(self)@
                } else {
                    final(self)@ == (HistoryView {
                        entries: keep_newest(e.push(command@), old(self)@.max_entries),
                        position: None,
                        ..old(self)@
                    })
                }
            }),
    {
        if command.as_str().unicode_len() == 0 {
            return;
        }
        let n = self.entries.len();
        if n > 0 && self.entries[n - 1] == command {
            return;
        }
        let ghost cv = command@;
        self.entries.push(command);
        self.position = None;
        proof {
            assert(strings_view(self.entries@) =~= strings_view(old(self).entries@).push(cv));
        }
        self.trim();
    }

    /// Starts navigating: remembers `current_input` unless navigation is already under way.
    pub fn start_navigation(&mut self, current_input: &str)
        requires
            old(self).wf(),
        ensures
            final(self).wf(),
            old(self)@.position is None ==> final(self)@ == (HistoryView {
                saved_input: current_input@,
                ..old(self)@
            }),
            old(self)@.position is Some ==> final(self)@ == old(self)@,
    {
        if self.position.is_none() {
            self.saved_input = current_input.to_owned();
        }
    }

    /// Moves to the previous (older) entry and returns it; stays on the oldest entry once
    /// there; `None` for an empty history.
    pub fn previous(&mut self, current_input: &str) -> (r: Option<String>)
        requires
            old(self).wf(),
        ensures
            final(self).wf(),
            final(self)@ == previous_view(old(self)@, current_input@),
            opt_view(r) == previous_shown(old(self)@),
    {
        if self.entries.len() == 0 {
            return None;
        }
        self.start_navigation(current_input);
        let new_pos = match self.position {
            None => self.entries.len() - 1,
            Some(p) => if p == 0 {
                0
            } else {
                p - 1
            },
        };
        self.position = Some(new_pos);
        Some(self.entries[new_pos].clone())
    }

    /// Moves to the next (newer) entry and returns it; past the newest entry, navigation ends
    /// and the saved input is returned; `None` when not navigating.
    pub fn next(&mut self) -> (r: Option<String>)
        requires
            old(self).wf(),
        ensures
            final(self).wf(),
            final(self)@ == next_view(old(self)@),
            opt_view(r) == next_shown(old(self)@),
    {
        match self.position {
            None => None,
            Some(pos) => {
                let n = self.entries.len();
                if pos + 1 >= n {
                    self.position = None;
                    Some(self.saved_input.clone())
                } else {
                    let new_pos = pos + 1;
                    self.position = Some(new_pos);
                    Some(self.entries[new_pos].clone())
                }
            },
        }
    }

    /// Stops navigating and forgets the saved input.
    pub fn reset_navigation(&mut self)
        requires
            old(self).wf(),
        ensures
            final(self).wf(),
            final(self)@ == (HistoryView {
                position: None,
                saved_input: Seq::empty(),
                ..old(self)@
            }),
    {
        self.position = None;
        self.saved_input = String::new();
    }

    /// The newest entry that completes `prefix` (case-insensitively, and longer than it), or
    /// `None` when there is none or `prefix` is empty.
    pub fn suggest(&self, prefix: &str) -> (r: Option<String>)
        ensures
            prefix@.len() == 0 ==> r is None,
            prefix@.len() > 0 ==> (r is Some <==> exists|i: int|
                0 <= i < self@.entries.len() && completes(#[trigger] self@.entries[i], prefix@)),
            r matches Some(s) ==> exists|i: int|
                0 <= i < self@.entries.len() && self@.entries[i] == s@ && completes(
                    self@.entries[i],
                    prefix@,
                ) && forall|j: int|
                    i < j < self@.entries.len() ==> !completes(#[trigger] self@.entries[j], prefix@),
    {
        let plen = prefix.unicode_len();
        if plen == 0 {
            return None;
        }
        assert(prefix@.len() > 0);
        let prefix_lower = chars_of(to_lowercase(prefix).as_str());
        let prefix_bytes = prefix.as_bytes().len();
        let ghost ev = strings_view(self.entries@);
        let mut i = self.entries.len();
        while i > 0
            invariant
                i <= self.entries@.len(),
                ev == strings_view(self.entries@),
                prefix@.len() > 0,
                prefix_lower@ == lower_text(prefix@),
                prefix_bytes == encode_utf8(prefix@).len(),
                forall|j: int| i <= j < ev.len() ==> !completes(#[trigger] ev[j], prefix@),
            decreases i,
        {
            i = i - 1;
            let e = &self.entries[i];
            let lower = chars_of(to_lowercase(e.as_str()).as_str());
            let e_bytes = e.as_str().as_bytes().len();
            assert(ev[i as int] == e@);
            if starts_with(&lower, &prefix_lower) && e_bytes > prefix_bytes {
                assert(completes(self@.entries[i as int], prefix@));
                return Some(e.clone());
            }
        }
        None
    }

    /// All entries, oldest first.
    pub fn entries(&self) -> (e: &Vec<String>)
        ensures
            strings_view(e@) == self@.entries,
    {
        &self.entries
    }

    pub fn len(&self) -> (n: usize)
        ensures
            n == self@.entries.len(),
    {
        self.entries.len()
    }

    /// The `n` most frequently used commands, most frequent first (ties in order of first use).
    pub fn top_commands(&self, n: usize) -> (r: Vec<String>)
        ensures
            is_top_commands(self@.entries, n as nat, strings_view(r@)),
    {
        top_commands_of(&self.entries, n)
    }
}

proof fn non_empty_push(lines: Seq<Seq<char>>, l: Seq<char>)
    ensures
        non_empty(lines.push(l)) == if l.len() > 0 {
            non_empty(lines).push(l)
        } else {
            non_empty(lines)
        },
{
    reveal(Seq::filter);
    assert(lines.push(l).drop_last() =~= lines);
}

proof fn lemma_occurrences_push(entries: Seq<Seq<char>>, x: Seq<char>, s: Seq<char>)
    ensures
        occurrences(entries.push(x), s) == occurrences(entries, s) + if x == s {
            1nat
        } else {
            0nat
        },
{
    assert(entries.push(x).drop_last() =~= entries);
}

proof fn lemma_occurrences_absent(entries: Seq<Seq<char>>, s: Seq<char>)
    requires
        !entries.contains(s),
    ensures
        occurrences(entries, s) == 0,
    decreases entries.len(),
{
    if entries.len() > 0 {
        assert(!entries.drop_last().contains(s)) by {
            if entries.drop_last().contains(s) {
                let k = choose|k: int| 0 <= k < entries.drop_last().len() && entries.drop_last()[k] == s;
                assert(entries[k] == s);
            }
        }
        lemma_occurrences_absent(entries.drop_last(), s);
    }
}

/// Number of entries of `entries` equal to `s`.
fn count_of(entries: &Vec<String>, s: &String) -> (c: usize)
    ensures
        c == occurrences(strings_view(entries@), s@),
{
    let ghost ev = strings_view(entries@);
    let mut c: usize = 0;
    let mut i: usize = 0;
    while i < entries.len()
        invariant
            i <= entries@.len(),
            ev == strings_view(entries@),
            c == occurrences(ev.take(i as int), s@),
            c <= i,
        decreases entries.len() - i,
    {
        proof {
            assert(ev.take(i + 1) =~= ev.take(i as int).push(ev[i as int]));
            lemma_occurrences_push(ev.take(i as int), ev[i as int], s@);
        }
        if entries[i] == *s {
            c = c + 1;
        }
        i = i + 1;
    }
    proof {
        assert(ev.take(entries@.len() as int) =~= ev);
    }
    c
}

/// Whether `v` holds a string equal to `s`.
fn holds(v: &Vec<String>, s: &String) -> (b: bool)
    ensures
        b == strings_view(v@).contains(s@),
{
    let mut i: usize = 0;
    while i < v.len()
        invariant
            i <= v@.len(),
            forall|j: int| 0 <= j < i ==> v@[j]@ != s@,
        decreases v.len() - i,
    {
        if v[i] == *s {
            assert(strings_view(v@)[i as int] == s@);
            return true;
        }
        i = i + 1;
    }
    assert(!strings_view(v@).contains(s@)) by {
        if strings_view(v@).contains(s@) {
            let k = choose|k: int| 0 <= k < strings_view(v@).len() && strings_view(v@)[k] == s@;
            assert(v@[k]@ == s@);
        }
    }
    false
}

/// The `n` most frequent entries, most frequent first, ties in order of first use.
fn top_commands_of(entries: &Vec<String>, n: usize) -> (r: Vec<String>)
    ensures
        is_top_commands(strings_view(entries@), n as nat, strings_view(r@)),
{
    let ghost ev = strings_view(entries@);
    // Distinct entries in order of first use, with their counts.
    let mut distinct: Vec<String> = Vec::new();
    let mut counts: Vec<usize> = Vec::new();
    let mut i: usize = 0;
    while i < entries.len()
        invariant
            i <= entries@.len(),
            ev == strings_view(entries@),
            distinct@.len() == counts@.len(),
            forall|a: int, b: int|
                0 <= a < b < distinct@.len() ==> #[trigger] distinct@[a]@ != #[trigger] distinct@[b]@,
            forall|a: int| 0 <= a < distinct@.len() ==> ev.contains(#[trigger] distinct@[a]@),
            forall|a: int|
                0 <= a < distinct@.len() ==> #[trigger] counts@[a] == occurrences(ev, distinct@[a]@),
            forall|j: int| 0 <= j < i ==> strings_view(distinct@).contains(#[trigger] ev[j]),
        decreases entries.len() - i,
    {
        let e = &entries[i];
        assert(ev[i as int] == e@);
        if !holds(&distinct, e) {
            let c = count_of(entries, e);
            let ghost before = distinct@;
            distinct.push(e.clone());
            counts.push(c);
            proof {
                assert forall|j: int| 0 <= j < i + 1 implies strings_view(distinct@).contains(
                    #[trigger] ev[j],
                ) by {
                    if j < i {
                        let k = choose|k: int|
                            0 <= k < strings_view(before).len() && strings_view(before)[k] == ev[j];
                        assert(strings_view(distinct@)[k] == ev[j]);
                    } else {
                        assert(strings_view(distinct@)[before.len() as int] == ev[j]);
                    }
                }
                assert forall|a: int, b: int|
                    0 <= a < b < distinct@.len() implies #[trigger] distinct@[a]@
                    != #[trigger] distinct@[b]@ by {
                    if b == before.len() {
                        assert(strings_view(before)[a] == distinct@[a]@);
                    }
                }
                assert(ev.contains(e@));
            }
        }
        i = i + 1;
    }
    // Pick the most frequent remaining entry, first in order of use among equals, `n` times.
    let mut picked: Vec<bool> = Vec::new();
    let mut k: usize = 0;
    while k < distinct.len()
        invariant
            k <= distinct@.len(),
            picked@.len() == k,
            forall|a: int| 0 <= a < k ==> !#[trigger] picked@[a],
        decreases distinct.len() - k,
    {
        picked.push(false);
        k = k + 1;
    }
    let mut r: Vec<String> = Vec::new();
    let mut chosen: Vec<usize> = Vec::new();
    while r.len() < n
        invariant
            ev == strings_view(entries@),
            distinct@.len() == counts@.len(),
            picked@.len() == distinct@.len(),
            chosen@.len() == r@.len(),
            r@.len() <= n,
            forall|a: int, b: int|
                0 <= a < b < distinct@.len() ==> #[trigger] distinct@[a]@ != #[trigger] distinct@[b]@,
            forall|a: int| 0 <= a < distinct@.len() ==> ev.contains(#[trigger] distinct@[a]@),
            forall|a: int|
                0 <= a < distinct@.len() ==> #[trigger] counts@[a] == occurrences(ev, distinct@[a]@),
            forall|j: int| 0 <= j < ev.len() ==> strings_view(distinct@).contains(#[trigger] ev[j]),
            forall|q: int|
                0 <= q < r@.len() ==> 0 <= #[trigger] chosen@[q] < distinct@.len() && picked@[chosen@[q]
                    as int] && r@[q]@ == distinct@[chosen@[q] as int]@,
            forall|q1: int, q2: int|
                0 <= q1 < q2 < r@.len() ==> #[trigger] chosen@[q1] != #[trigger] chosen@[q2],
            forall|a: int|
                0 <= a < distinct@.len() && #[trigger] picked@[a] ==> exists|q: int|
                    0 <= q < r@.len() && chosen@[q] == a,
            forall|q1: int, q2: int|
                0 <= q1 < q2 < r@.len() ==> counts@[#[trigger] chosen@[q1] as int] >= counts@[#[trigger] chosen@[q2] as int],
            forall|q: int, a: int|
                0 <= q < r@.len() && 0 <= a < distinct@.len() && !#[trigger] picked@[a] ==> counts@[
                    #[trigger] chosen@[q] as int] >= counts@[a],
        ensures
            r@.len() == n || forall|a: int| 0 <= a < distinct@.len() ==> #[trigger] picked@[a],
        decreases n - r@.len(),
    {
        let mut best: usize = distinct.len();
        let mut j: usize = 0;
        while j < distinct.len()
            invariant
                distinct@.len() == counts@.len(),
                picked@.len() == distinct@.len(),
                j <= distinct@.len(),
                best == distinct@.len() || (best < j && !picked@[best as int]),
                best == distinct@.len() ==> forall|a: int| 0 <= a < j ==> #[trigger] picked@[a],
                best < distinct@.len() ==> forall|a: int|
                    0 <= a < j && !#[trigger] picked@[a] ==> counts@[best as int] >= counts@[a],
            decreases distinct.len() - j,
        {
            if !picked[j] && (best == distinct.len() || counts[j] > counts[best]) {
                best = j;
            }
            j = j + 1;
        }
        if best == distinct.len() {
            break;
        }
        let ghost old_picked = picked@;
        let ghost old_chosen = chosen@;
        picked.set(best, true);
        r.push(distinct[best].clone());
        chosen.push(best);
        proof {
            assert forall|a: int|
                0 <= a < distinct@.len() && #[trigger] picked@[a] implies exists|q: int|
                0 <= q < r@.len() && chosen@[q] == a by {
                if a == best {
                    assert(chosen@[r@.len() - 1] == a);
                } else {
                    assert(old_picked[a]);
                    let q = choose|q: int| 0 <= q < r@.len() - 1 && old_chosen[q] == a;
                    assert(chosen@[q] == a);
                }
            }
            assert forall|q1: int, q2: int| 0 <= q1 < q2 < r@.len() implies #[trigger] chosen@[q1]
                != #[trigger] chosen@[q2] by {
                if q2 == r@.len() - 1 {
                    assert(old_picked[old_chosen[q1] as int]);
                }
            }
        }
    }
    proof {
        let rv = strings_view(r@);
        assert forall|i: int| 0 <= i < rv.len() implies ev.contains(#[trigger] rv[i]) by {
            assert(rv[i] == distinct@[chosen@[i] as int]@);
        }
        assert forall|i: int, j: int| 0 <= i < j < rv.len() implies rv[i] != rv[j] by {
            assert(rv[i] == distinct@[chosen@[i] as int]@);
            assert(rv[j] == distinct@[chosen@[j] as int]@);
        }
        assert forall|i: int, j: int| 0 <= i < j < rv.len() implies occurrences(ev, #[trigger] rv[i])
            >= occurrences(ev, #[trigger] rv[j]) by {
            assert(counts@[chosen@[i] as int] >= counts@[chosen@[j] as int]);
        }
        assert forall|e: Seq<char>|
            #![trigger ev.contains(e), rv.contains(e)]
            ev.contains(e) && !rv.contains(e) implies rv.len() == n && (n > 0 ==> occurrences(ev, e)
            <= occurrences(ev, rv[n - 1])) by {
            let j = choose|j: int| 0 <= j < ev.len() && ev[j] == e;
            assert(strings_view(distinct@).contains(ev[j]));
            let a = choose|a: int| 0 <= a < strings_view(distinct@).len() && strings_view(distinct@)[a] == e;
            assert(distinct@[a]@ == e);
            if picked@[a] {
                let q = choose|q: int| 0 <= q < r@.len() && chosen@[q] == a;
                assert(rv[q] == e);
            } else {
                assert(r@.len() == n);
                if n > 0 {
                    assert(counts@[chosen@[n - 1] as int] >= counts@[a]);
                }
            }
        }
    }
    r
}


/// The history file's text: each entry followed by a line feed, oldest first.
pub open spec fn file_text(entries: Seq<Seq<char>>) -> Seq<char>
    decreases entries.len(),
{
    if entries.len() == 0 {
        Seq::empty()
    } else {
        file_text(entries.drop_last()) + entries.last() + seq!['\n']
    }
}

/// A line without the carriage return that ends it, if it has one.
pub open spec fn strip_cr(l: Seq<char>) -> Seq<char> {
    if l.len() > 0 && l.last() == '\r' {
        l.drop_last()
    } else {
        l
    }
}

/// Reading `text` line by line: the lines ended so far, and the text after the last line feed.
pub open spec fn scan_lines(text: Seq<char>) -> (Seq<Seq<char>>, Seq<char>)
    decreases text.len(),
{
    if text.len() == 0 {
        (Seq::empty(), Seq::empty())
    } else {
        let (done, cur) = scan_lines(text.drop_last());
        if text.last() == '\n' {
            (done.push(strip_cr(cur)), Seq::empty())
        } else {
            (done, cur.push(text.last()))
        }
    }
}

/// The lines of the history file's text: split at line feeds, a carriage return before a line
/// feed dropped, and the text after the last line feed a line of its own when there is any.
pub open spec fn file_lines(text: Seq<char>) -> Seq<Seq<char>> {
    let (done, cur) = scan_lines(text);
    if cur.len() > 0 {
        done.push(cur)
    } else {
        done
    }
}

/// The text written to the history file for `entries`: each entry on a line of its own.
pub fn history_file_text(entries: &Vec<String>) -> (s: String)
    ensures
        s@ == file_text(strings_view(entries@)),
{
    let mut s = String::new();
    let mut i: usize = 0;
    while i < entries.len()
        invariant
            i <= entries@.len(),
            s@ == file_text(strings_view(entries@.take(i as int))),
        decreases entries.len() - i,
    {
        crate::text::push_str(&mut s, entries[i].as_str());
        crate::text::push_char(&mut s, '\n');
        proof {
            let es = strings_view(entries@.take(i + 1));
            assert(es.drop_last() =~= strings_view(entries@.take(i as int)));
            assert(es.last() == entries@[i as int]@);
        }
        i = i + 1;
    }
    assert(entries@.take(entries@.len() as int) =~= entries@);
    s
}

/// Splits the history file's text into lines as `file_lines` describes.
pub fn split_lines(text: &str) -> (v: Vec<String>)
    ensures
        strings_view(v@) == file_lines(text@),
{
    let chars = chars_of(text);
    let mut done: Vec<String> = Vec::new();
    let mut cur: Vec<char> = Vec::new();
    let mut i: usize = 0;
    assert(chars@.take(0) =~= Seq::<char>::empty());
    while i < chars.len()
        invariant
            i <= chars@.len(),
            chars@ == text@,
            (strings_view(done@), cur@) == scan_lines(chars@.take(i as int)),
        decreases chars.len() - i,
    {
        let c = chars[i];
        proof {
            assert(chars@.take(i + 1).drop_last() =~= chars@.take(i as int));
        }
        if c == '\n' {
            let n = cur.len();
            if n > 0 && cur[n - 1] == '\r' {
                cur.pop();
            }
            let line = crate::text::string_from_chars(&cur);
            done.push(line);
            cur = Vec::new();
            proof {
                assert(strings_view(done@) =~= scan_lines(chars@.take(i + 1)).0);
                assert(cur@ =~= Seq::<char>::empty());
            }
        } else {
            cur.push(c);
        }
        i = i + 1;
    }
    proof {
        assert(chars@.take(chars@.len() as int) =~= chars@);
    }
    if cur.len() > 0 {
        let line = crate::text::string_from_chars(&cur);
        done.push(line);
        proof {
            assert(strings_view(done@) =~= file_lines(text@));
        }
    }
    done
}

/// Reading text that ends just after a line feed, followed by text without line feeds, leaves
/// that text as the line being read.
proof fn lemma_scan_tail(t: Seq<char>, e: Seq<char>)
    requires
        scan_lines(t).1 == Seq::<char>::empty(),
        !e.contains('\n'),
    ensures
        scan_lines(t + e) == (scan_lines(t).0, e),
    decreases e.len(),
{
    if e.len() == 0 {
        assert(t + e =~= t);
    } else {
        let d = e.drop_last();
        assert(!d.contains('\n')) by {
            if d.contains('\n') {
                let k = choose|k: int| 0 <= k < d.len() && d[k] == '\n';
                assert(e[k] == '\n');
            }
        }
        lemma_scan_tail(t, d);
        assert((t + e).drop_last() =~= t + d);
        assert((t + e).last() == e.last());
        assert(e[e.len() - 1] != '\n');
        assert(d.push(e.last()) =~= e);
    }
}

/// The file text of entries is read back line by line as those entries.
proof fn lemma_scan_file_text(entries: Seq<Seq<char>>)
    requires
        forall|i: int| 0 <= i < entries.len() ==> storable_entry(#[trigger] entries[i]),
    ensures
        scan_lines(file_text(entries)) == (entries, Seq::<char>::empty()),
    decreases entries.len(),
{
    if entries.len() > 0 {
        let es = entries.drop_last();
        let e = entries.last();
        assert forall|i: int| 0 <= i < es.len() implies storable_entry(#[trigger] es[i]) by {
            assert(es[i] == entries[i]);
        }
        lemma_scan_file_text(es);
        assert(storable_entry(entries[entries.len() - 1]));
        lemma_scan_tail(file_text(es), e);
        let t = file_text(es) + e;
        assert(file_text(entries) == t.push('\n'));
        assert(t.push('\n').drop_last() =~= t);
        assert(es.push(e) =~= entries);
    }
}

/// An entry that the history file keeps as it is: not empty, no line feed in it, and not
/// ending with a carriage return.
pub open spec fn storable_entry(e: Seq<char>) -> bool {
    &&& e.len() > 0
    &&& !e.contains('\n')
    &&& e.last() != '\r'
}

/// Writing the history and reading the file back gives the same entries, in order, for
/// entries that the file can hold (as pushed commands are: not empty; and without line feeds
/// or a final carriage return).
pub proof fn law_history_file_round_trip(entries: Seq<Seq<char>>)
    requires
        forall|i: int| 0 <= i < entries.len() ==> storable_entry(#[trigger] entries[i]),
    ensures
        file_lines(file_text(entries)) == entries,
        non_empty(file_lines(file_text(entries))) == entries,
{
    lemma_scan_file_text(entries);
    lemma_non_empty_all(entries);
}

/// Keeping the non-empty lines of lines that are all non-empty keeps them all.
proof fn lemma_non_empty_all(s: Seq<Seq<char>>)
    requires
        forall|i: int| 0 <= i < s.len() ==> storable_entry(#[trigger] s[i]),
    ensures
        non_empty(s) == s,
    decreases s.len(),
{
    if s.len() > 0 {
        let d = s.drop_last();
        assert forall|i: int| 0 <= i < d.len() implies storable_entry(#[trigger] d[i]) by {
            assert(d[i] == s[i]);
        }
        lemma_non_empty_all(d);
        assert(storable_entry(s[s.len() - 1]));
        assert(d.push(s.last()) =~= s);
        non_empty_push(d, s.last());
    }
}

} // verus!
