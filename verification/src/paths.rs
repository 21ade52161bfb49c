//! Where the application keeps its files: the user's directories and `~` in configured paths.
use vstd::prelude::*;

use crate::text::{chars_of, seq_starts_with, trim_str, trimmed};

verus! {

/// Calls `dirs::home_dir`, giving the path as text (a path that is not valid Unicode counts
/// as none). Nothing is claimed of the result: it depends on the user's environment.
#[verifier::external_body]
fn home_dir() -> Option<String> {
    dirs::home_dir().and_then(|p| p.into_os_string().into_string().ok())
}

/// Calls `dirs::data_dir`, giving the path as text (a path that is not valid Unicode counts
/// as none). Nothing is claimed of the result: it depends on the user's environment.
#[verifier::external_body]
fn data_dir() -> Option<String> {
    dirs::data_dir().and_then(|p| p.into_os_string().into_string().ok())
}

/// A single plain path component: ASCII letters, digits, `_` and `-` only, so neither a root,
/// a drive prefix, `.` nor `..`.
pub open spec fn plain_name(s: Seq<char>) -> bool {
    &&& s.len() > 0
    &&& forall|i: int|
        0 <= i < s.len() ==> {
            let c = #[trigger] s[i];
            ('a' <= c <= 'z') || ('A' <= c <= 'Z') || ('0' <= c <= '9') || c == '_' || c == '-'
        }
}

/// What joining a path and a component may put between them: nothing (after a separator, or
/// after an empty path or a bare drive), `/` or `\`.
pub open spec fn is_separator(s: Seq<char>) -> bool {
    s == Seq::<char>::empty() || s == seq!['/'] || s == seq!['\\']
}

/// `p` ends with the component `name`, after a separator or none.
pub open spec fn ends_with_component(p: Seq<char>, name: Seq<char>) -> bool {
    exists|prefix: Seq<char>, sep: Seq<char>|
        #![trigger is_separator(sep), prefix + sep]
        is_separator(sep) && p == prefix + sep + name
}

/// `p` is `base`, a separator or none, and `rest`.
pub open spec fn extends_with(p: Seq<char>, base: Seq<char>, rest: Seq<char>) -> bool {
    exists|sep: Seq<char>| #![trigger is_separator(sep)] is_separator(sep) && p == base + sep + rest
}

/// A relative path that has neither a root nor a Windows prefix: not empty, not starting with
/// `/`, and holding no `\` and no `:`.
pub open spec fn relative_path(s: Seq<char>) -> bool {
    &&& s.len() > 0
    &&& s[0] != '/'
    &&& forall|i: int| 0 <= i < s.len() ==> #[trigger] s[i] != '\\' && s[i] != ':'
}

/// Whether a path starts as a Windows verbatim prefix (`\\?\`) does, taken broadly: `\\?`.
pub open spec fn verbatim_like(p: Seq<char>) -> bool {
    p.len() >= 3 && p[0] == '\\' && p[1] == '\\' && p[2] == '?'
}

/// A plain component is a relative path.
pub proof fn lemma_plain_is_relative(s: Seq<char>)
    requires
        plain_name(s),
    ensures
        relative_path(s),
{
    assert forall|i: int| 0 <= i < s.len() implies #[trigger] s[i] != '\\' && s[i] != ':' by {
        let c = s[i];
        assert(('a' <= c <= 'z') || ('A' <= c <= 'Z') || ('0' <= c <= '9') || c == '_' || c == '-');
    }
    let c0 = s[0];
    assert(('a' <= c0 <= 'z') || ('A' <= c0 <= 'Z') || ('0' <= c0 <= '9') || c0 == '_' || c0 == '-');
}

/// Calls `std::path::Path::join`, giving the path as text. Its documentation (`PathBuf::push`)
/// says that a relative path (no root, no prefix) extends the base, with a separator where one
/// is needed, unless the base has a Windows verbatim prefix, which makes the result normalized
/// (`.` and `..` removed) first. What is claimed: for a relative `rest` and a base that does not
/// start like a verbatim prefix, the result is the base, a separator or none, and `rest`; for a
/// plain component and any base, the result ends with the component. Which separator is used
/// is left unsaid: it depends on the platform.
#[verifier::external_body]
fn join_path(base: &str, rest: &str) -> (r: String)
    ensures
        plain_name(rest@) ==> ends_with_component(r@, rest@),
        relative_path(rest@) && !verbatim_like(base@) ==> extends_with(r@, base@, rest@),
{
    std::path::Path::new(base).join(rest).to_string_lossy().into_owned()
}

/// Whether `a` holds exactly the characters of `b`.
fn is_text(a: &Vec<char>, b: &str) -> (r: bool)
    ensures
        r == (a@ == b@),
{
    let bv = chars_of(b);
    if a.len() != bv.len() {
        return false;
    }
    let mut i: usize = 0;
    while i < a.len()
        invariant
            a@.len() == bv@.len(),
            bv@ == b@,
            i <= a@.len(),
            forall|j: int| 0 <= j < i ==> a@[j] == bv@[j],
        decreases a.len() - i,
    {
        if a[i] != bv[i] {
            return false;
        }
        i = i + 1;
    }
    assert(a@ =~= bv@);
    true
}

/// The optional view of an optional string.
pub open spec fn opt_view(o: Option<String>) -> Option<Seq<char>> {
    match o {
        Some(s) => Some(s@),
        None => None,
    }
}

/// A configured path with `~` standing for `home`: blank means none; `~` is the home
/// directory; `~/rest` is `rest` joined to it (none when the home is unknown); any other path
/// is taken as it is, trimmed.
pub fn expand_with_home(path: &str, home: Option<String>) -> (r: Option<String>)
    ensures
        ({
            let t = trimmed(path@);
            &&& t.len() == 0 ==> r is None
            &&& t == "~"@ ==> opt_view(r) == opt_view(home)
            &&& seq_starts_with(t, "~/"@) ==> {
                &&& home is None ==> r is None
                &&& home matches Some(h) ==> (r matches Some(s) && (relative_path(t.skip(2))
                    && !verbatim_like(h@) ==> extends_with(s@, h@, t.skip(2))) && (plain_name(t.skip(2))
                    ==> ends_with_component(s@, t.skip(2))))
            }
            &&& t.len() > 0 && t != "~"@ && !seq_starts_with(t, "~/"@) ==> opt_view(r) == Some(t)
        }),
{
    proof {
        reveal_strlit("~");
        reveal_strlit("~/");
    }
    let trimmed_path = trim_str(path);
    let t = chars_of(trimmed_path.as_str());
    if t.len() == 0 {
        return None;
    }
    if is_text(&t, "~") {
        return home;
    }
    let prefix = chars_of("~/");
    if crate::text::starts_with(&t, &prefix) {
        let mut rest: Vec<char> = Vec::new();
        let mut i: usize = 2;
        assert(t@.subrange(2, 2) =~= Seq::<char>::empty());
        while i < t.len()
            invariant
                2 <= i <= t@.len(),
                rest@ == t@.subrange(2, i as int),
            decreases t.len() - i,
        {
            rest.push(t[i]);
            assert(t@.subrange(2, i + 1) =~= t@.subrange(2, i as int).push(t@[i as int]));
            i = i + 1;
        }
        let rest_text = crate::text::string_from_chars(&rest);
        assert(rest_text@ == t@.skip(2));
        return match home {
            Some(h) => Some(join_path(h.as_str(), rest_text.as_str())),
            None => None,
        };
    }
    Some(trimmed_path)
}

/// A configured path with `~` standing for the user's home directory, as `expand_with_home`
/// reads it with the home that `dirs::home_dir` reports (which depends on the environment, so
/// of `~` and `~/rest` only what holds for every home is stated).
pub fn expand_path(path: &str) -> (r: Option<String>)
    ensures
        trimmed(path@).len() == 0 ==> r is None,
        ({
            let t = trimmed(path@);
            t.len() > 0 && t != "~"@ && !seq_starts_with(t, "~/"@) ==> (r matches Some(s) && s@ == t)
        }),
        ({
            let t = trimmed(path@);
            seq_starts_with(t, "~/"@) && plain_name(t.skip(2)) ==> (r matches Some(s) ==> ends_with_component(
                s@,
                t.skip(2),
            ))
        }),
{
    expand_with_home(path, home_dir())
}

/// `p` is `dir`, a separator or none, `yapper`, a separator or none, and `history`.
pub open spec fn history_file_under(dir: Seq<char>, p: Seq<char>) -> bool {
    exists|s1: Seq<char>, s2: Seq<char>|
        #![trigger is_separator(s1), is_separator(s2)]
        is_separator(s1) && is_separator(s2) && p == dir + s1 + "yapper"@ + s2 + "history"@
}

/// The history file in the data directory `dir`: `yapper/history` under it. It always ends
/// with the component `history`; unless `dir` starts like a Windows verbatim prefix it is
/// exactly `dir`, `yapper` and `history` joined by separators.
pub fn history_path_in(dir: &str) -> (p: String)
    ensures
        ends_with_component(p@, "history"@),
        !verbatim_like(dir@) ==> history_file_under(dir@, p@),
{
    let app_dir = join_path(dir, "yapper");
    let p = join_path(app_dir.as_str(), "history");
    proof {
        reveal_strlit("yapper");
        reveal_strlit("history");
        assert(plain_name("yapper"@));
        assert(plain_name("history"@));
        lemma_plain_is_relative("yapper"@);
        lemma_plain_is_relative("history"@);
        if !verbatim_like(dir@) {
            let s1 = choose|s1: Seq<char>| is_separator(s1) && app_dir@ == dir@ + s1 + "yapper"@;
            assert(is_separator(s1) && app_dir@ == dir@ + s1 + "yapper"@);
            assert(!verbatim_like(app_dir@)) by {
                let a = app_dir@;
                if verbatim_like(a) {
                    let k: int = (dir@.len() + s1.len()) as int;
                    assert(a[k] == 'y');
                    if dir@.len() >= 3 {
                        assert(a[0] == dir@[0] && a[1] == dir@[1] && a[2] == dir@[2]);
                    } else if s1.len() == 0 {
                        assert(k <= 2);
                    } else {
                        assert(a[dir@.len() as int] == s1[0]);
                        assert(k <= 3);
                        if k == 3 {
                            assert(dir@.len() == 2);
                            assert(a[2] == s1[0]);
                        }
                    }
                }
            }
            let s2 = choose|s2: Seq<char>| is_separator(s2) && p@ == app_dir@ + s2 + "history"@;
            assert(p@ == dir@ + s1 + "yapper"@ + s2 + "history"@);
            assert(history_file_under(dir@, p@));
        }
    }
    p
}

/// Where the command history is kept by default: `yapper/history` in the user's data
/// directory, when that is known (`None` otherwise).
pub fn default_history_path() -> (r: Option<String>)
    ensures
        r matches Some(p) ==> ends_with_component(p@, "history"@),
{
    match data_dir() {
        Some(d) => Some(history_path_in(d.as_str())),
        None => None,
    }
}

} // verus!
