//! Case-insensitive search over the lines of the scrollback.
use vstd::prelude::*;

use crate::text::{chars_of, contains_seq, dec_digits, lower_text, push_char, push_decimal, push_str, seq_contains, to_lowercase};

verus! {

/// Line `line` matches `query`: the lower-cased query occurs in the lower-cased line.
pub open spec fn line_matches(line: Seq<char>, query: Seq<char>) -> bool {
    seq_contains(lower_text(line), lower_text(query))
}

/// Indices of the lines that match `query`, in increasing order.
pub open spec fn matching_lines(lines: Seq<String>, query: Seq<char>) -> Seq<usize>
    decreases lines.len(),
{
    if lines.len() == 0 {
        Seq::empty()
    } else {
        let rest = matching_lines(lines.drop_last(), query);
        if line_matches(lines.last()@, query) {
            rest.push((lines.len() - 1) as usize)
        } else {
            rest
        }
    }
}

/// Text of the match counter: nothing without a query, `No matches`, or `current/total`
/// (current counted from one, `0` when no match is selected).
pub open spec fn status_text(query: Seq<char>, count: nat, current: Option<usize>) -> Seq<char> {
    if query.len() == 0 {
        Seq::empty()
    } else if count == 0 {
        "No matches"@
    } else {
        dec_digits(
            match current {
                Some(i) => (i + 1) as nat,
                None => 0nat,
            },
        ).push('/') + dec_digits(count)
    }
}

/// Match selected by stepping forward from `current` among `n` matches (wrapping to the first).
pub open spec fn next_index(current: Option<usize>, n: nat) -> usize {
    match current {
        Some(i) => if i + 1 >= n {
            0usize
        } else {
            (i + 1) as usize
        },
        None => 0usize,
    }
}

/// Match selected by stepping back from `current` among `n` matches (wrapping to the last).
pub open spec fn prev_index(current: Option<usize>, n: nat) -> usize {
    match current {
        Some(i) => if i == 0 {
            (n - 1) as usize
        } else {
            (i - 1) as usize
        },
        None => (n - 1) as usize,
    }
}

/// Stepping to the next match and back to the previous one returns to the selected match,
/// and so does stepping back then forward, wrap-around included.
pub proof fn law_next_prev_inverse(i: usize, n: nat)
    requires
        i < n <= usize::MAX,
    ensures
        prev_index(Some(next_index(Some(i), n)), n) == i,
        next_index(Some(prev_index(Some(i), n)), n) == i,
{
}

/// Stepping forward `k` times from match `i` among `n` selects match `(i + k) mod n`; after
/// `n` steps the selection is back where it started.
pub proof fn law_next_cycles(i: usize, n: nat, k: nat)
    requires
        i < n <= usize::MAX,
        k <= n,
    ensures
        iterate_next(i, n, k) == (i + k) % (n as int),
    decreases k,
{
    if k == 0 {
        vstd::arithmetic::div_mod::lemma_small_mod(i as nat, n);
    } else {
        law_next_cycles(i, n, (k - 1) as nat);
        let j = iterate_next(i, n, (k - 1) as nat);
        assert(j == (i + k - 1) % (n as int));
        if j + 1 >= n {
            assert((i + k) % (n as int) == 0) by (nonlinear_arith)
                requires j == (i + k - 1) % (n as int), j + 1 >= n, j < n, n > 0, i < n, k <= n, i + k >= 1;
        } else {
            assert((i + k) % (n as int) == j + 1) by (nonlinear_arith)
                requires j == (i + k - 1) % (n as int), j + 1 < n, n > 0, i + k >= 1;
        }
    }
}

/// The match selected after stepping forward `k` times from match `i` among `n`.
pub open spec fn iterate_next(i: usize, n: nat, k: nat) -> usize
    decreases k,
{
    if k == 0 {
        i
    } else {
        next_index(Some(iterate_next(i, n, (k - 1) as nat)), n)
    }
}

/// Search state for finding text in the scrollback buffer.
pub struct Search {
    /// Current search query.
    pub query: String,
    /// Whether search mode is active.
    pub is_active: bool,
    /// Indices of lines that match the query.
    pub matches: Vec<usize>,
    /// Current match index (into `matches`).
    pub current_match: Option<usize>,
}

impl Search {
    /// The selected match, when there is one, exists.
    pub open spec fn wf(&self) -> bool {
        self.current_match matches Some(i) ==> i < self.matches@.len()
    }

    pub fn new() -> (s: Self)
        ensures
            s.wf(),
            s.query@ == Seq::<char>::empty(),
            !s.is_active,
            s.matches@ == Seq::<usize>::empty(),
            s.current_match is None,
    {
        Search { query: String::new(), is_active: false, matches: Vec::new(), current_match: None }
    }

    /// Activate search mode with an empty query.
    pub fn activate(&mut self)
        ensures
            final(self).wf(),
            final(self).is_active,
            final(self).query@ == Seq::<char>::empty(),
            final(self).matches@ == Seq::<usize>::empty(),
            final(self).current_match is None,
    {
        self.is_active = true;
        self.query = String::new();
        self.matches = Vec::new();
        self.current_match = None;
    }

    /// Deactivate search mode; query and matches stay.
    pub fn deactivate(&mut self)
        ensures
            *final(self) == (Search { is_active: false, ..*old(self) }),
    {
        self.is_active = false;
    }

    /// Add a character to the search query.
    pub fn push_char(&mut self, c: char)
        ensures
            final(self).query@ == old(self).query@.push(c),
            final(self).is_active == old(self).is_active,
            final(self).matches == old(self).matches,
            final(self).current_match == old(self).current_match,
    {
        push_char(&mut self.query, c);
    }

    /// Remove the last character from the search query, if any.
    pub fn pop_char(&mut self)
        ensures
            final(self).query@ == if old(self).query@.len() == 0 {
                old(self).query@
            } else {
                old(self).query@.drop_last()
            },
            final(self).is_active == old(self).is_active,
            final(self).matches == old(self).matches,
            final(self).current_match == old(self).current_match,
    {
        let chars = chars_of(self.query.as_str());
        if chars.len() > 0 {
            let mut q = String::new();
            let mut i: usize = 0;
            while i + 1 < chars.len()
                invariant
                    chars@.len() > 0,
                    i < chars@.len(),
                    q@ == chars@.take(i as int),
                decreases chars.len() - i,
            {
                push_char(&mut q, chars[i]);
                assert(chars@.take(i + 1) =~= chars@.take(i as int).push(chars@[i as int]));
                i = i + 1;
            }
            assert(q@ =~= chars@.drop_last());
            self.query = q;
        }
    }

    /// Finds the lines that match the query (none for an empty query) and selects the last
    /// (most recent) match.
    pub fn execute(&mut self, lines: &Vec<String>)
        ensures
            final(self).wf(),
            final(self).query == old(self).query,
            final(self).is_active == old(self).is_active,
            old(self).query@.len() == 0 ==> final(self).matches@ == Seq::<usize>::empty(),
            old(self).query@.len() > 0 ==> final(self).matches@ == matching_lines(
                lines@,
                old(self).query@,
            ),
            final(self).current_match == if final(self).matches@.len() == 0 {
                None
            } else {
                Some((final(self).matches@.len() - 1) as usize)
            },
    {
        self.matches = Vec::new();
        self.current_match = None;
        if self.query.as_str().unicode_len() == 0 {
            return;
        }
        let query_lower = chars_of(to_lowercase(self.query.as_str()).as_str());
        let mut i: usize = 0;
        proof {
            assert(lines@.take(0) =~= Seq::<String>::empty());
        }
        while i < lines.len()
            invariant
                i <= lines@.len(),
                query_lower@ == lower_text(self.query@),
                self.matches@ == matching_lines(lines@.take(i as int), self.query@),
                self.current_match is None,
                self.query == old(self).query,
                self.is_active == old(self).is_active,
            decreases lines.len() - i,
        {
            let line_lower = chars_of(to_lowercase(lines[i].as_str()).as_str());
            proof {
                assert(lines@.take(i + 1).drop_last() =~= lines@.take(i as int));
            }
            if contains_seq(&line_lower, &query_lower) {
                self.matches.push(i);
            }
            i = i + 1;
        }
        proof {
            assert(lines@.take(lines@.len() as int) =~= lines@);
        }
        if self.matches.len() > 0 {
            self.current_match = Some(self.matches.len() - 1);
        }
    }

    /// Selects the next match (towards newer lines), wrapping to the first, and returns its
    /// line index; `None` when there are no matches.
    pub fn next_match(&mut self) -> (r: Option<usize>)
        ensures
            final(self).query == old(self).query,
            final(self).is_active == old(self).is_active,
            final(self).matches == old(self).matches,
            old(self).matches@.len() == 0 ==> r is None && final(self).current_match == old(
                self,
            ).current_match,
            old(self).matches@.len() > 0 ==> {
                let idx = next_index(old(self).current_match, old(self).matches@.len());
                &&& final(self).current_match == Some(idx)
                &&& r == Some(old(self).matches@[idx as int])
            },
            old(self).wf() ==> final(self).wf(),
    {
        if self.matches.len() == 0 {
            return None;
        }
        let n = self.matches.len();
        let idx = match self.current_match {
            Some(i) => if i >= n - 1 {
                0
            } else {
                i + 1
            },
            None => 0,
        };
        self.current_match = Some(idx);
        Some(self.matches[idx])
    }

    /// Selects the previous match (towards older lines), wrapping to the last, and returns its
    /// line index; `None` when there are no matches.
    pub fn prev_match(&mut self) -> (r: Option<usize>)
        requires
            old(self).wf(),
        ensures
            final(self).wf(),
            final(self).query == old(self).query,
            final(self).is_active == old(self).is_active,
            final(self).matches == old(self).matches,
            old(self).matches@.len() == 0 ==> r is None && final(self).current_match == old(
                self,
            ).current_match,
            old(self).matches@.len() > 0 ==> {
                let idx = prev_index(old(self).current_match, old(self).matches@.len());
                &&& final(self).current_match == Some(idx)
                &&& r == Some(old(self).matches@[idx as int])
            },
    {
        if self.matches.len() == 0 {
            return None;
        }
        let n = self.matches.len();
        let idx = match self.current_match {
            Some(i) => if i == 0 {
                n - 1
            } else {
                i - 1
            },
            None => n - 1,
        };
        self.current_match = Some(idx);
        Some(self.matches[idx])
    }

    /// The line index of the selected match.
    pub fn current_line(&self) -> (r: Option<usize>)
        requires
            self.wf(),
        ensures
            r == match self.current_match {
                Some(i) => Some(self.matches@[i as int]),
                None => None,
            },
    {
        match self.current_match {
            Some(i) => Some(self.matches[i]),
            None => None,
        }
    }

    /// Whether line `line_index` is a match.
    pub fn is_match(&self, line_index: usize) -> (b: bool)
        ensures
            b == self.matches@.contains(line_index),
    {
        let mut i: usize = 0;
        while i < self.matches.len()
            invariant
                i <= self.matches@.len(),
                forall|j: int| 0 <= j < i ==> self.matches@[j] != line_index,
            decreases self.matches.len() - i,
        {
            if self.matches[i] == line_index {
                return true;
            }
            i = i + 1;
        }
        false
    }

    /// The line indices of all matches.
    pub fn match_lines(&self) -> (v: Vec<usize>)
        ensures
            v@ == self.matches@,
    {
        self.matches.clone()
    }

    /// The match counter shown in the search bar.
    pub fn match_status(&self) -> (s: String)
        requires
            self.wf(),
        ensures
            s@ == status_text(self.query@, self.matches@.len(), self.current_match),
    {
        if self.query.as_str().unicode_len() == 0 {
            return String::new();
        }
        if self.matches.len() == 0 {
            let s = String::from_str("No matches");
            proof {
                reveal_strlit("No matches");
            }
            return s;
        }
        let mut s = String::new();
        let pos: usize = match self.current_match {
            Some(i) => i + 1,
            None => 0,
        };
        push_decimal(&mut s, pos as u64);
        push_char(&mut s, '/');
        push_decimal(&mut s, self.matches.len() as u64);
        s
    }
}

} // verus!
