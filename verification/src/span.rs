//! Source spans for error attribution, and values tagged with a span.

use vstd::prelude::*;

verus! {

/// A region of a source file, kept as plain line and column numbers.
/// Lines are 1-indexed; `0` in any field means "not recorded".
#[derive(Clone, Copy, Debug, PartialEq, Eq, Structural)]
pub struct Span {
    pub line_start: usize,
    pub line_end: usize,
    pub col_start: usize,
    pub col_end: usize,
}

impl Span {
    /// A span with nothing recorded.
    pub fn empty() -> (s: Span)
        ensures
            s == (Span { line_start: 0, line_end: 0, col_start: 0, col_end: 0 }),
    {
        Span { line_start: 0, line_end: 0, col_start: 0, col_end: 0 }
    }

    /// A span that records only a starting line.
    pub fn for_line(line: usize) -> (s: Span)
        ensures
            s == (Span { line_start: line, line_end: 0, col_start: 0, col_end: 0 }),
    {
        Span { line_start: line, line_end: 0, col_start: 0, col_end: 0 }
    }
}

/// The span a `Span::for_line` call returns, usable in contracts.
pub open spec fn line_span(line: usize) -> Span {
    Span { line_start: line, line_end: 0, col_start: 0, col_end: 0 }
}

/// A value together with the source span it was written at.
#[derive(Debug)]
pub struct Spanned<T> {
    pub data: T,
    pub span: Span,
}

impl<T> Spanned<T> {
    pub fn new(data: T, span: Span) -> (s: Spanned<T>)
        ensures
            s.data == data,
            s.span == span,
    {
        Spanned { data, span }
    }

    /// The span this value was written at.
    pub fn span(&self) -> (s: Span)
        ensures
            s == self.span,
    {
        self.span
    }

    /// The line this value was written at.
    pub fn line(&self) -> (l: usize)
        ensures
            l == self.span.line_start,
    {
        self.span.line_start
    }
}

} // verus!
