//! Regex-based line filter for show/hide of output lines.
use vstd::prelude::*;

use crate::buffer::ScrollbackBuffer;
use crate::patterns::{pattern_error, is_match, regex_error, regex_match};
use crate::text::{push_char, push_str};

verus! {

#[derive(Clone, Copy, PartialEq, Eq, Structural, Debug)]
pub enum FilterMode {
    /// Only show lines matching this pattern.
    Include,
    /// Hide lines matching this pattern.
    Exclude,
}

/// One filter: a pattern and what a match does.
pub struct FilterRule {
    pub pattern: String,
    pub mode: FilterMode,
}

/// Regex-based line filter for show/hide of output lines.
pub struct LineFilter {
    /// Active filters.
    filters: Vec<FilterRule>,
    /// Whether filtering is enabled.
    pub is_active: bool,
}

/// Some rule of `mode` matches `text`.
pub open spec fn any_matches(rules: Seq<(Seq<char>, FilterMode)>, mode: FilterMode, text: Seq<char>) -> bool {
    exists|i: int| 0 <= i < rules.len() && (#[trigger] rules[i]).1 == mode && regex_match(rules[i].0, text)
}

/// Some rule has mode `mode`.
pub open spec fn has_mode(rules: Seq<(Seq<char>, FilterMode)>, mode: FilterMode) -> bool {
    exists|i: int| 0 <= i < rules.len() && (#[trigger] rules[i]).1 == mode
}

/// Whether a line is shown: always when filtering is off or there are no rules; otherwise it
/// must match an include rule (when there are any) and no exclude rule.
pub open spec fn shown(rules: Seq<(Seq<char>, FilterMode)>, active: bool, text: Seq<char>) -> bool {
    if !active || rules.len() == 0 {
        true
    } else {
        (has_mode(rules, FilterMode::Include) ==> any_matches(rules, FilterMode::Include, text))
            && !any_matches(rules, FilterMode::Exclude, text)
    }
}

/// How a rule is listed: `+` or `-`, then its pattern.
pub open spec fn description(rule: (Seq<char>, FilterMode)) -> Seq<char> {
    seq![if rule.1 == FilterMode::Include { '+' } else { '-' }] + rule.0
}

impl LineFilter {
    /// The rules, in the order they were added.
    pub closed spec fn rules(&self) -> Seq<(Seq<char>, FilterMode)> {
        self.filters@.map_values(|f: FilterRule| (f.pattern@, f.mode))
    }

    /// Whether filtering is on.
    pub closed spec fn active(&self) -> bool {
        self.is_active
    }

    /// Every stored pattern compiles.
    pub closed spec fn wf(&self) -> bool {
        forall|i: int| 0 <= i < self.rules().len() ==> regex_error((#[trigger] self.rules()[i]).0) is None
    }

    pub fn new() -> (f: Self)
        ensures
            f.wf(),
            f.rules() == Seq::<(Seq<char>, FilterMode)>::empty(),
            !f.active(),
    {
        let f = LineFilter { filters: Vec::new(), is_active: false };
        assert(f.rules() =~= Seq::<(Seq<char>, FilterMode)>::empty());
        f
    }

    /// Adds a rule when its pattern compiles, and turns filtering on; otherwise returns
    /// `Invalid regex: ` and the compiler's message, and changes nothing.
    fn add(&mut self, pattern: &str, mode: FilterMode) -> (r: Result<(), String>)
        requires
            old(self).wf(),
        ensures
            final(self).wf(),
            match regex_error(pattern@) {
                None => {
                    &&& r is Ok
                    &&& final(self).rules() == old(self).rules().push((pattern@, mode))
                    &&& final(self).active()
                },
                Some(msg) => {
                    &&& r matches Err(e) && e@ == "Invalid regex: "@ + msg
                    &&& final(self).rules() == old(self).rules()
                    &&& final(self).active() == old(self).active()
                },
            },
    {
        match pattern_error(pattern) {
            Some(msg) => {
                let mut e = String::from_str("Invalid regex: ");
                push_str(&mut e, msg.as_str());
                Err(e)
            },
            None => {
                self.filters.push(FilterRule { pattern: String::from_str(pattern), mode });
                self.is_active = true;
                assert(self.rules() =~= old(self).rules().push((pattern@, mode)));
                Ok(())
            },
        }
    }

    /// Add an include filter.
    pub fn add_include(&mut self, pattern: &str) -> (r: Result<(), String>)
        requires
            old(self).wf(),
        ensures
            final(self).wf(),
            match regex_error(pattern@) {
                None => {
                    &&& r is Ok
                    &&& final(self).rules() == old(self).rules().push((pattern@, FilterMode::Include))
                    &&& final(self).active()
                },
                Some(msg) => {
                    &&& r matches Err(e) && e@ == "Invalid regex: "@ + msg
                    &&& final(self).rules() == old(self).rules()
                    &&& final(self).active() == old(self).active()
                },
            },
    {
        self.add(pattern, FilterMode::Include)
    }

    /// Add an exclude filter.
    pub fn add_exclude(&mut self, pattern: &str) -> (r: Result<(), String>)
        requires
            old(self).wf(),
        ensures
            final(self).wf(),
            match regex_error(pattern@) {
                None => {
                    &&& r is Ok
                    &&& final(self).rules() == old(self).rules().push((pattern@, FilterMode::Exclude))
                    &&& final(self).active()
                },
                Some(msg) => {
                    &&& r matches Err(e) && e@ == "Invalid regex: "@ + msg
                    &&& final(self).rules() == old(self).rules()
                    &&& final(self).active() == old(self).active()
                },
            },
    {
        self.add(pattern, FilterMode::Exclude)
    }

    /// Whether some rule of `mode` matches `text`; with `only_presence`, whether some rule has
    /// that mode at all.
    fn scan(&self, mode: FilterMode, text: &str, only_presence: bool) -> (b: bool)
        requires
            self.wf(),
        ensures
            only_presence ==> b == has_mode(self.rules(), mode),
            !only_presence ==> b == any_matches(self.rules(), mode, text@),
    {
        let mut i: usize = 0;
        while i < self.filters.len()
            invariant
                self.wf(),
                i <= self.rules().len(),
                self.rules().len() == self.filters@.len(),
                forall|j: int| 0 <= j < i ==> !((#[trigger] self.rules()[j]).1 == mode && (only_presence
                    || regex_match(self.rules()[j].0, text@))),
            decreases self.filters.len() - i,
        {
            let f = &self.filters[i];
            assert(self.rules()[i as int] == (f.pattern@, f.mode));
            if f.mode == mode {
                if only_presence {
                    return true;
                }
                assert(regex_error(self.rules()[i as int].0) is None);
                match is_match(f.pattern.as_str(), text) {
                    Some(true) => {
                        return true;
                    },
                    _ => {},
                }
            }
            i = i + 1;
        }
        false
    }

    /// Check if a line should be displayed.
    pub fn should_display(&self, text: &str) -> (b: bool)
        requires
            self.wf(),
        ensures
            b == shown(self.rules(), self.active(), text@),
    {
        if !self.is_active || self.filters.len() == 0 {
            return true;
        }
        let has_include_filters = self.scan(FilterMode::Include, text, true);
        if has_include_filters {
            let matches_include = self.scan(FilterMode::Include, text, false);
            if !matches_include {
                return false;
            }
        }
        let matches_exclude = self.scan(FilterMode::Exclude, text, false);
        !matches_exclude
    }

    /// Clear all filters.
    pub fn clear(&mut self)
        ensures
            final(self).wf(),
            final(self).rules() == Seq::<(Seq<char>, FilterMode)>::empty(),
            !final(self).active(),
    {
        self.filters.clear();
        self.is_active = false;
        assert(self.rules() =~= Seq::<(Seq<char>, FilterMode)>::empty());
    }

    /// Get the number of active filters.
    pub fn count(&self) -> (n: usize)
        ensures
            n == self.rules().len(),
    {
        self.filters.len()
    }

    /// Get filter descriptions for display.
    pub fn descriptions(&self) -> (v: Vec<String>)
        ensures
            v@.len() == self.rules().len(),
            forall|i: int| 0 <= i < v@.len() ==> #[trigger] v@[i]@ == description(self.rules()[i]),
    {
        let mut v: Vec<String> = Vec::new();
        for i in 0..self.filters.len()
            invariant
                self.rules().len() == self.filters@.len(),
                v@.len() == i,
                forall|j: int| 0 <= j < i ==> #[trigger] v@[j]@ == description(self.rules()[j]),
        {
            let f = &self.filters[i];
            let mut d = String::new();
            match f.mode {
                FilterMode::Include => push_char(&mut d, '+'),
                FilterMode::Exclude => push_char(&mut d, '-'),
            }
            push_str(&mut d, f.pattern.as_str());
            assert(self.rules()[i as int] == (f.pattern@, f.mode));
            assert(d@ =~= description(self.rules()[i as int]));
            v.push(d);
        }
        v
    }

    /// Remove a filter by index; filtering stays on while rules remain. An index past the end
    /// changes nothing.
    pub fn remove(&mut self, index: usize)
        requires
            old(self).wf(),
        ensures
            final(self).wf(),
            index < old(self).rules().len() ==> {
                &&& final(self).rules() == old(self).rules().remove(index as int)
                &&& final(self).active() == (final(self).rules().len() > 0)
            },
            index >= old(self).rules().len() ==> *final(self) == *old(self),
    {
        if index < self.filters.len() {
            self.filters.remove(index);
            self.is_active = self.filters.len() > 0;
            assert(self.rules() =~= old(self).rules().remove(index as int));
            assert forall|i: int| 0 <= i < self.rules().len() implies regex_error((#[trigger] self.rules()[i]).0) is None by {
                if i < index {
                    assert(self.rules()[i] == old(self).rules()[i]);
                } else {
                    assert(self.rules()[i] == old(self).rules()[i + 1]);
                }
            }
        }
    }
}

/// With no rules (as after `clear`) every line is shown, whether or not filtering is on.
pub proof fn law_no_rules_shows_all(active: bool, text: Seq<char>)
    ensures
        shown(Seq::<(Seq<char>, FilterMode)>::empty(), active, text),
{
}


/// Indices, in increasing order, of the lines among `texts` that the rules show.
pub open spec fn shown_indices(rules: Seq<(Seq<char>, FilterMode)>, active: bool, texts: Seq<Seq<char>>) -> Seq<usize>
    decreases texts.len(),
{
    if texts.len() == 0 {
        Seq::empty()
    } else {
        let before = shown_indices(rules, active, texts.drop_last());
        if shown(rules, active, texts.last()) {
            before.push((texts.len() - 1) as usize)
        } else {
            before
        }
    }
}

impl LineFilter {
    /// The scrollback lines to display, by index: the complete lines that the rules show, in
    /// order, and then the pending partial line, which is always shown.
    pub fn visible_lines(&self, buffer: &ScrollbackBuffer) -> (v: Vec<usize>)
        requires
            self.wf(),
            buffer.wf(),
        ensures
            v@ == if buffer@.partial.len() > 0 {
                shown_indices(self.rules(), self.active(), buffer.text_lines()).push(buffer@.lines.len() as usize)
            } else {
                shown_indices(self.rules(), self.active(), buffer.text_lines())
            },
    {
        let mut v: Vec<usize> = Vec::new();
        let n = buffer.len();
        let mut i: usize = 0;
        while i < n
            invariant
                self.wf(),
                buffer.wf(),
                n == buffer@.lines.len(),
                i <= n,
                v@ == shown_indices(self.rules(), self.active(), buffer.text_lines().take(i as int)),
            decreases n - i,
        {
            proof {
                assert(buffer.text_lines().take(i + 1).drop_last() =~= buffer.text_lines().take(i as int));
            }
            match buffer.get(i) {
                Some(entry) => {
                    assert(entry.text@ == buffer.text_lines()[i as int]);
                    if self.should_display(entry.text.as_str()) {
                        v.push(i);
                    }
                },
                None => {},
            }
            i = i + 1;
        }
        proof {
            assert(buffer.text_lines().take(n as int) =~= buffer.text_lines());
        }
        if buffer.partial_line().is_some() {
            v.push(n);
        }
        v
    }
}
} // verus!
