//! Log-level detection that decides how an output line is coloured.
use vstd::prelude::*;

use crate::text::{chars_of, contains_seq, seq_contains, to_uppercase, upper_text};

verus! {

/// The colour class of an output line.
#[derive(Clone, Copy, PartialEq, Eq, Structural, Debug)]
pub enum LineLevel {
    /// Ordinary output text.
    Plain,
    Error,
    Warn,
    Info,
    Debug,
}

/// The level a line is shown with: plain when log levels are not coloured; otherwise by the
/// first marker found in the upper-cased line, checked in the order error, warning, info, debug.
pub open spec fn level_of(text: Seq<char>, color_log_levels: bool) -> LineLevel {
    let u = upper_text(text);
    if !color_log_levels {
        LineLevel::Plain
    } else if seq_contains(u, "[ERROR]"@) || seq_contains(u, "ERROR:"@) || seq_contains(u, "PANIC"@) {
        LineLevel::Error
    } else if seq_contains(u, "[WARN]"@) || seq_contains(u, "WARN:"@) || seq_contains(u, "WARNING"@) {
        LineLevel::Warn
    } else if seq_contains(u, "[INFO]"@) || seq_contains(u, "INFO:"@) {
        LineLevel::Info
    } else if seq_contains(u, "[DEBUG]"@) || seq_contains(u, "DEBUG:"@) || seq_contains(u, "[TRACE]"@) {
        LineLevel::Debug
    } else {
        LineLevel::Plain
    }
}

/// Whether `hay` contains the characters of `needle`.
fn has(hay: &Vec<char>, needle: &str) -> (b: bool)
    ensures
        b == seq_contains(hay@, needle@),
{
    let n = chars_of(needle);
    contains_seq(hay, &n)
}

/// Colours of the interface; the colour values themselves belong to the screen code.
#[derive(Debug)]
pub struct Theme;

impl Theme {
    /// Detect the log level of a line from its content: the class of style it is drawn with.
    pub fn style_for_line(text: &str, color_log_levels: bool) -> (l: LineLevel)
        ensures
            l == level_of(text@, color_log_levels),
    {
        line_level(text, color_log_levels)
    }
}

/// Detect the log level of a line from its content.
fn line_level(text: &str, color_log_levels: bool) -> (l: LineLevel)
    ensures
        l == level_of(text@, color_log_levels),
{
    if !color_log_levels {
        return LineLevel::Plain;
    }
    let upper = chars_of(to_uppercase(text).as_str());
    assert(upper@ == upper_text(text@));
    if has(&upper, "[ERROR]") || has(&upper, "ERROR:") || has(&upper, "PANIC") {
        LineLevel::Error
    } else if has(&upper, "[WARN]") || has(&upper, "WARN:") || has(&upper, "WARNING") {
        LineLevel::Warn
    } else if has(&upper, "[INFO]") || has(&upper, "INFO:") {
        LineLevel::Info
    } else if has(&upper, "[DEBUG]") || has(&upper, "DEBUG:") || has(&upper, "[TRACE]") {
        LineLevel::Debug
    } else {
        LineLevel::Plain
    }
}

} // verus!
