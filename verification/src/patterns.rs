//! Regular-expression matching, done by the `regex` crate.
//!
//! A pattern is compiled for each call: compiling depends on the pattern alone, so whether it
//! compiles and what it matches are named functions of the pattern and the text.
use vstd::prelude::*;

verus! {

/// The message `regex::Regex::new` fails with for `pattern`, or `None` when it compiles.
pub uninterp spec fn regex_error(pattern: Seq<char>) -> Option<Seq<char>>;

/// Whether the compiled `pattern` matches somewhere in `text` (`regex::Regex::is_match`).
pub uninterp spec fn regex_match(pattern: Seq<char>, text: Seq<char>) -> bool;

/// The byte ranges `(start, end)` of the successive non-overlapping leftmost-first matches of
/// the compiled `pattern` in `text` (`regex::Regex::find_iter`).
pub uninterp spec fn regex_find(pattern: Seq<char>, text: Seq<char>) -> Seq<(usize, usize)>;

/// Compiles `pattern` with `regex::Regex::new` and gives the error's message when that fails.
/// Claims only that the outcome is the named outcome for this pattern.
#[verifier::external_body]
pub(crate) fn pattern_error(pattern: &str) -> (r: Option<String>)
    ensures
        match r {
            Some(msg) => regex_error(pattern@) == Some(msg@),
            None => regex_error(pattern@) is None,
        },
{
    regex::Regex::new(pattern).err().map(|e| e.to_string())
}

/// Compiles `pattern` and calls `regex::Regex::is_match` on `text`; `None` when the pattern
/// does not compile. Claims that the outcome is the named outcome for these arguments.
#[verifier::external_body]
pub(crate) fn is_match(pattern: &str, text: &str) -> (r: Option<bool>)
    ensures
        r is None <==> regex_error(pattern@) is Some,
        r matches Some(b) ==> b == regex_match(pattern@, text@),
{
    regex::Regex::new(pattern).ok().map(|re| re.is_match(text))
}

/// Compiles `pattern` and collects the start and end of each match of
/// `regex::Regex::find_iter` on `text`; `None` when the pattern does not compile. Claims that
/// the outcome is the named outcome for these arguments, and that each match starts no later
/// than it ends (as `regex::Match` guarantees).
#[verifier::external_body]
pub(crate) fn find_all(pattern: &str, text: &str) -> (r: Option<Vec<(usize, usize)>>)
    ensures
        r is None <==> regex_error(pattern@) is Some,
        r matches Some(v) ==> v@ == regex_find(pattern@, text@),
        r matches Some(v) ==> forall|i: int| 0 <= i < v@.len() ==> #[trigger] v@[i].0 <= v@[i].1,
{
    regex::Regex::new(pattern).ok().map(|re| re.find_iter(text).map(|m| (m.start(), m.end())).collect())
}

} // verus!
