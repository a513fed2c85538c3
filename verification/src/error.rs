use vstd::prelude::*;

verus! {

/// A half-open byte range `[start, end)` into a source string.
#[derive(Clone, Copy, Debug, PartialEq, Eq, Structural, Hash)]
pub struct Span {
    pub start: usize,
    pub end: usize,
}

impl Span {
    pub fn new(start: usize, end: usize) -> (s: Span)
        ensures
            s.start == start,
            s.end == end,
    {
        Span { start, end }
    }
}

/// The single error the scanner produces: the source together with the first
/// byte range that matched no lexical rule. Scanning stops there; no recovery
/// is attempted.
#[derive(Debug)]
pub struct LexError {
    pub source: String,
    pub span: Span,
}

} // verus!
