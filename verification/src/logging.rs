//! How a session log is written.
use vstd::prelude::*;

use crate::text::chars_of;

verus! {

/// How received bytes go into the session log.
#[derive(Clone, Copy, Debug, PartialEq, Eq, Structural)]
pub enum LogFormat {
    /// Raw bytes as received.
    Raw,
    /// Lines prefixed with timestamps.
    Timestamped,
}

/// The format a configured name selects: `raw`, and anything else timestamped.
pub open spec fn format_for(name: Seq<char>) -> LogFormat {
    if name == "raw"@ {
        LogFormat::Raw
    } else {
        LogFormat::Timestamped
    }
}

impl LogFormat {
    /// The format named in the configuration.
    pub fn from_config(name: &str) -> (f: Self)
        ensures
            f == format_for(name@),
    {
        let n = chars_of(name);
        let r = chars_of("raw");
        if n.len() != r.len() {
            return LogFormat::Timestamped;
        }
        let mut i: usize = 0;
        while i < n.len()
            invariant
                n@ == name@,
                r@ == "raw"@,
                n@.len() == r@.len(),
                i <= n@.len(),
                forall|j: int| 0 <= j < i ==> n@[j] == r@[j],
            decreases n.len() - i,
        {
            if n[i] != r[i] {
                return LogFormat::Timestamped;
            }
            i = i + 1;
        }
        assert(n@ =~= r@);
        LogFormat::Raw
    }
}

} // verus!
