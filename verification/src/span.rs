//! Positions in source text.

use vstd::prelude::*;

verus! {

/// The place of a token or a construct in the source text.
#[derive(Debug, Clone, Copy, PartialEq, Eq, Structural)]
pub struct Span {
    /// Line of the first character, counted from one.
    pub line: usize,
    /// Column of the first character, counted from one.
    pub column: usize,
    /// Offset of the first character, counted in characters from zero.
    pub start: usize,
    /// Offset just past the last character.
    pub end: usize,
}

impl Span {
    /// The span that `Span::default()` returns: the start of the text.
    pub open spec fn origin() -> Span {
        Span { line: 1, column: 1, start: 0, end: 0 }
    }
}

impl Default for Span {
    /// The empty span at the start of the text.
    fn default() -> (span: Span)
        ensures
            span == Span::origin(),
    {
        Span { line: 1, column: 1, start: 0, end: 0 }
    }
}

} // verus!
