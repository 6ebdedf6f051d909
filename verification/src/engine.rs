//! The boundary to the `regex` crate.
//!
//! Everything in this module is taken on trust. The type declarations make the
//! outside types known to the verifier, which sees nothing inside their values.
//! The uninterpreted functions give names to what the outside functions return,
//! and the wrappers state what is believed of each call. Nothing stated here is
//! proved; everything outside this module is.

use vstd::prelude::*;

verus! {

/// Makes `regex::bytes::Regex`, the compiled matcher, known as a type. Its
/// values are opaque: all that is said of one is said through `built` and
/// `found_at`.
#[verifier::external_type_specification]
#[verifier::external_body]
pub struct ExRegex(regex::bytes::Regex);

/// Makes `regex::Error`, the reason why a pattern did not compile, known as a
/// type. Its values are opaque: all that is said of one is said through `built`
/// and `error_text`.
#[verifier::external_type_specification]
#[verifier::external_body]
pub struct ExRegexError(regex::Error);

/// What `regex::bytes::RegexBuilder::build` returns for a pattern when the
/// builder's `unicode` and `dot_matches_new_line` switches are set as given and
/// every other setting is left at its default: the compiled matcher, or the
/// reason why there is none.
pub uninterp spec fn built(pattern: Seq<char>, unicode: bool, dot_matches_new_line: bool) -> Result<
    regex::bytes::Regex,
    regex::Error,
>;

/// What `regex::bytes::Regex::find_at` returns for a haystack and a starting
/// offset, as the pair of the match's `start()` and `end()`.
pub uninterp spec fn found_at(re: regex::bytes::Regex, haystack: Seq<u8>, start: int) -> Option<
    (usize, usize),
>;

/// What the `Display` impl of `regex::Error` writes for an error.
pub uninterp spec fn error_text(cause: regex::Error) -> Seq<char>;

/// Makes a `regex::bytes::RegexBuilder` for the pattern, sets its `unicode` and
/// `dot_matches_new_line` switches and calls `build`.
///
/// Believed: compiling is a function of the pattern and the two switches, so
/// the same arguments always give the same matcher or the same error. Which
/// patterns compile, and what the matcher then matches, is not stated.
#[verifier::external_body]
pub(crate) fn build(pattern: &str, unicode: bool, dot_matches_new_line: bool) -> (res: Result<
    regex::bytes::Regex,
    regex::Error,
>)
    ensures
        res == built(pattern@, unicode, dot_matches_new_line),
{
    regex::bytes::RegexBuilder::new(pattern)
        .unicode(unicode)
        .dot_matches_new_line(dot_matches_new_line)
        .build()
}

/// Calls `regex::bytes::Regex::find_at` and hands out the offsets of the match.
///
/// Believed: the answer is a function of the matcher, the haystack and the
/// starting offset; a reported match lies within the searched part of the
/// haystack, from `start` to its end, and does not end before it starts. The
/// call panics for a `start` beyond the haystack, which `requires` leaves out.
#[verifier::external_body]
pub(crate) fn find_at(re: &regex::bytes::Regex, haystack: &[u8], start: usize) -> (found: Option<
    (usize, usize),
>)
    requires
        start <= haystack@.len(),
    ensures
        found == found_at(*re, haystack@, start as int),
        found matches Some((s, e)) ==> start <= s && s <= e && e <= haystack@.len(),
{
    re.find_at(haystack, start).map(|m| (m.start(), m.end()))
}

/// Calls `to_string` on a `regex::Error`, which goes through its `Display`
/// impl.
///
/// Believed: the text is a function of the error.
#[verifier::external_body]
pub(crate) fn describe(cause: &regex::Error) -> (text: String)
    ensures
        text@ == error_text(*cause),
{
    cause.to_string()
}

} // verus!
