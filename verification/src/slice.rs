//! Defensive slicing of strings by character offsets.
//!
//! Spans produced by the tokenizer are half-open `[start, end)` intervals of
//! character offsets.  A span that cannot be realized on the input is not an
//! error: slicing reports `None` and the caller omits the span.

use vstd::prelude::*;

verus! {

/// Turns a half-open range into its `(begin, end)` bounds.
pub fn range_to_begin_end(range: core::ops::Range<usize>) -> (r: (usize, usize))
    ensures
        r.0 == range.start,
        r.1 == range.end,
{
    (range.start, range.end)
}

/// Slicing by character offsets that reports failure instead of panicking.
pub trait StringSlice where Self: View<V = Seq<char>> {
    /// Substring of the characters `range.start..range.end`, or `None` when
    /// the range does not fit the string.
    fn try_slice<'a>(&'a self, range: core::ops::Range<usize>) -> (r: Option<&'a str>)
        ensures
            r is Some <==> range.start <= range.end && range.end <= self@.len(),
            r is Some ==> r.unwrap()@ == self@.subrange(range.start as int, range.end as int),
    ;

    /// Substring of the characters `begin..end`, or `None` when the bounds do
    /// not fit the string.
    fn try_substring<'a>(&'a self, begin: usize, end: usize) -> (r: Option<&'a str>)
        ensures
            r is Some <==> begin <= end && end <= self@.len(),
            r is Some ==> r.unwrap()@ == self@.subrange(begin as int, end as int),
    ;
}

impl StringSlice for str {
    fn try_slice<'a>(&'a self, range: core::ops::Range<usize>) -> (r: Option<&'a str>) {
        let (begin, end) = range_to_begin_end(range);
        self.try_substring(begin, end)
    }

    fn try_substring<'a>(&'a self, begin: usize, end: usize) -> (r: Option<&'a str>) {
        if begin > end {
            return None;
        }
        if end > self.unicode_len() {
            return None;
        }
        Some(self.substring_char(begin, end))
    }
}

} // verus!
