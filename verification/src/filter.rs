//! Pattern matching over a buffer: compile the pattern, then scan.

use vstd::prelude::*;
use regex::bytes::Regex;
use crate::engine::{build, built, describe, error_text};
use crate::scan::{in_scan_order, scan, spans_from, within_buffer, Span};

verus! {

/// Unicode mode of the matcher. It is off: every single-character construct of
/// a pattern, `.` and the character classes included, stands for one byte and
/// never for a decoded code point, and case folding is that of ASCII.
pub const UNICODE: bool = false;

/// Whether `.` matches the newline byte. It does: `.` matches every byte.
pub const DOT_MATCHES_NEW_LINE: bool = true;

/// Why a pattern could not be compiled.
#[derive(Debug)]
pub struct PatternCompilationError {
    /// The matcher's account of what is wrong with the pattern.
    pub message: String,
}

/// What compiling `pattern` under the two fixed switches gives: the matcher,
/// or the reason why there is none.
pub open spec fn compiled(pattern: Seq<char>) -> Result<Regex, regex::Error> {
    built(pattern, UNICODE, DOT_MATCHES_NEW_LINE)
}

/// What `filter` is to return for a pattern and a buffer: the spans of a scan
/// from offset 0 with the compiled pattern, or the text of the compilation
/// error.
pub open spec fn filter_outcome(pattern: Seq<char>, buffer: Seq<u8>) -> Result<
    Seq<Span>,
    Seq<char>,
> {
    match compiled(pattern) {
        Ok(re) => Ok(spans_from(re, buffer, 0)),
        Err(cause) => Err(error_text(cause)),
    }
}

/// A result of `filter` as plain values: the spans, or the error's message.
pub open spec fn outcome(res: Result<Vec<(usize, usize)>, PatternCompilationError>) -> Result<
    Seq<Span>,
    Seq<char>,
> {
    match res {
        Ok(spans) => Ok(spans@),
        Err(e) => Err(e.message@),
    }
}

/// Compiles `pattern` into a byte-oriented matcher whose `.` matches every
/// byte. Fails exactly when the pattern does not compile.
pub fn compile(pattern: &str) -> (res: Result<Regex, PatternCompilationError>)
    ensures
        res is Ok <==> compiled(pattern@) is Ok,
        match res {
            Ok(re) => compiled(pattern@) == Ok::<Regex, regex::Error>(re),
            Err(e) => compiled(pattern@) matches Err(cause) && e.message@ == error_text(cause),
        },
{
    match build(pattern, UNICODE, DOT_MATCHES_NEW_LINE) {
        Ok(re) => Ok(re),
        Err(cause) => Err(PatternCompilationError { message: describe(&cause) }),
    }
}

/// Returns the spans of all matches of `pattern` in `buffer`, each as the
/// half-open byte range `(start, end)`, in the order of a single left-to-right
/// scan. The only failure is a pattern that does not compile; a buffer without
/// a match gives an empty list.
pub fn filter(pattern: &str, buffer: &[u8]) -> (res: Result<
    Vec<(usize, usize)>,
    PatternCompilationError,
>)
    ensures
        res is Ok <==> compiled(pattern@) is Ok,
        outcome(res) == filter_outcome(pattern@, buffer@),
        res matches Ok(spans) ==> {
            &&& within_buffer(spans@, buffer@.len())
            &&& in_scan_order(spans@)
            &&& buffer@.len() == 0 ==> spans@.len() == 0 || spans@ == seq![(0usize, 0usize)]
        },
{
    match compile(pattern) {
        Ok(re) => Ok(scan(&re, buffer)),
        Err(e) => Err(e),
    }
}

/// Two runs of `filter` on the same pattern and buffer end alike: both fail
/// with the same message, or both succeed with the same spans.
pub proof fn lemma_filter_deterministic(
    pattern: Seq<char>,
    buffer: Seq<u8>,
    first: Result<Vec<(usize, usize)>, PatternCompilationError>,
    second: Result<Vec<(usize, usize)>, PatternCompilationError>,
)
    requires
        outcome(first) == filter_outcome(pattern, buffer),
        outcome(second) == filter_outcome(pattern, buffer),
    ensures
        outcome(first) == outcome(second),
        first is Ok <==> second is Ok,
{
}

} // verus!
