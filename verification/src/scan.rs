//! The left-to-right scan that turns single searches into the ordered list of
//! non-overlapping match spans.

use vstd::prelude::*;
use regex::bytes::Regex;
use crate::engine::{find_at, found_at};

verus! {

/// A match span: the half-open byte range `[start, end)` of a match.
pub type Span = (usize, usize);

/// The first match whose start is at or after `start`: the engine's answer to a
/// search from there, as long as it lies between `start` and the end of the
/// haystack.
pub open spec fn next_match(re: Regex, haystack: Seq<u8>, start: int) -> Option<Span> {
    match found_at(re, haystack, start) {
        Some((s, e)) => if start <= s && s <= e && e <= haystack.len() {
            Some((s, e))
        } else {
            None
        },
        None => None,
    }
}

/// Where the scan goes on after reporting `span`: at its end, or one byte past
/// it where the span is empty.
pub open spec fn resume_point(span: Span) -> int {
    if span.0 == span.1 {
        span.1 + 1
    } else {
        span.1 as int
    }
}

/// The spans that a scan reports from position `pos` on, in the order in which
/// it finds them.
pub open spec fn spans_from(re: Regex, haystack: Seq<u8>, pos: int) -> Seq<Span>
    decreases haystack.len() + 1 - pos,
{
    if pos < 0 || pos > haystack.len() {
        Seq::empty()
    } else {
        match next_match(re, haystack, pos) {
            None => Seq::empty(),
            Some(span) => seq![span] + spans_from(re, haystack, resume_point(span)),
        }
    }
}

/// Every span is a range of a buffer of `len` bytes.
pub open spec fn within_buffer(spans: Seq<Span>, len: nat) -> bool {
    forall|i: int|
        0 <= i < spans.len() ==> (#[trigger] spans[i]).0 <= spans[i].1 && spans[i].1 <= len
}

/// The spans come in strictly increasing order of start, and none begins before
/// an earlier one has ended.
pub open spec fn in_scan_order(spans: Seq<Span>) -> bool {
    forall|i: int, j: int|
        0 <= i < j < spans.len() ==> (#[trigger] spans[i]).0 < (#[trigger] spans[j]).0
            && spans[i].1 <= spans[j].0
}

/// Searches `buffer` for the first match that starts at or after `start`.
pub fn find_from(re: &Regex, buffer: &[u8], start: usize) -> (found: Option<Span>)
    ensures
        found == next_match(*re, buffer@, start as int),
        found matches Some((s, e)) ==> start <= s && s <= e && e <= buffer@.len(),
        start > buffer@.len() ==> found is None,
{
    if start <= buffer.len() {
        find_at(re, buffer, start)
    } else {
        None
    }
}

/// The position at which to search next once `span` has been reported in a
/// buffer of `len` bytes, or `None` where that lies past the end of the buffer.
pub fn next_position(span: Span, len: usize) -> (next: Option<usize>)
    ensures
        match next {
            Some(pos) => pos == resume_point(span) && pos <= len,
            None => resume_point(span) > len,
        },
{
    if span.0 == span.1 {
        if span.1 < len {
            Some(span.1 + 1)
        } else {
            None
        }
    } else if span.1 <= len {
        Some(span.1)
    } else {
        None
    }
}

/// Reports every match in `buffer`, scanning it once from left to right: each
/// search starts where the last reported span says to resume, and the scan ends
/// with the first search that finds nothing or would start past the buffer.
pub fn scan(re: &Regex, buffer: &[u8]) -> (spans: Vec<Span>)
    ensures
        spans@ == spans_from(*re, buffer@, 0),
        within_buffer(spans@, buffer@.len()),
        in_scan_order(spans@),
        buffer@.len() == 0 ==> spans@.len() == 0 || spans@ == seq![(0usize, 0usize)],
{
    let mut spans: Vec<Span> = Vec::new();
    let mut pos: usize = 0;
    loop
        invariant_except_break
            pos <= buffer@.len(),
            spans_from(*re, buffer@, 0) == spans@ + spans_from(*re, buffer@, pos as int),
        ensures
            spans@ == spans_from(*re, buffer@, 0),
        decreases buffer@.len() - pos,
    {
        match find_from(re, buffer, pos) {
            None => {
                break ;
            },
            Some(span) => {
                spans.push(span);
                match next_position(span, buffer.len()) {
                    Some(next) => {
                        pos = next;
                    },
                    None => {
                        assert(spans_from(*re, buffer@, resume_point(span)) =~= Seq::empty());
                        break ;
                    },
                }
            },
        }
    }
    proof {
        lemma_spans_within_buffer(*re, buffer@, 0);
        lemma_spans_in_scan_order(*re, buffer@, 0);
        lemma_empty_buffer(*re, buffer@);
    }
    spans
}

/// Every span that a scan reports from `pos` on lies within the haystack and
/// starts at or after `pos`.
pub proof fn lemma_spans_within_buffer(re: Regex, haystack: Seq<u8>, pos: int)
    ensures
        within_buffer(spans_from(re, haystack, pos), haystack.len()),
        forall|i: int|
            0 <= i < spans_from(re, haystack, pos).len() ==> pos <= (#[trigger] spans_from(
                re,
                haystack,
                pos,
            )[i]).0,
    decreases haystack.len() + 1 - pos,
{
    if 0 <= pos <= haystack.len() {
        if let Some(span) = next_match(re, haystack, pos) {
            lemma_spans_within_buffer(re, haystack, resume_point(span));
        }
    }
}

/// The spans that a scan reports come in strictly increasing order of start,
/// and each begins at or after the end of every span before it.
pub proof fn lemma_spans_in_scan_order(re: Regex, haystack: Seq<u8>, pos: int)
    ensures
        in_scan_order(spans_from(re, haystack, pos)),
    decreases haystack.len() + 1 - pos,
{
    if 0 <= pos <= haystack.len() {
        if let Some(span) = next_match(re, haystack, pos) {
            lemma_spans_in_scan_order(re, haystack, resume_point(span));
            lemma_spans_within_buffer(re, haystack, resume_point(span));
        }
    }
}

/// A scan of an empty buffer reports nothing, or the one empty span at offset 0.
pub proof fn lemma_empty_buffer(re: Regex, haystack: Seq<u8>)
    ensures
        haystack.len() == 0 ==> spans_from(re, haystack, 0).len() == 0 || spans_from(
            re,
            haystack,
            0,
        ) == seq![(0usize, 0usize)],
{
    if haystack.len() == 0 {
        if let Some(span) = next_match(re, haystack, 0) {
            assert(spans_from(re, haystack, resume_point(span)).len() == 0);
        }
    }
}

} // verus!
