use vstd::prelude::*;

verus! {

/// A half-open byte range `[start, end)` in a source text.
#[derive(Debug, Clone, Copy, PartialEq, Eq, Structural)]
pub struct Span {
    /// First byte of the range.
    pub start: u32,
    /// One past the last byte of the range.
    pub end: u32,
}

impl Span {
    /// Builds the span `[start, end)`.
    pub fn new(start: u32, end: u32) -> (s: Span)
        ensures
            s.start == start,
            s.end == end,
    {
        Span { start, end }
    }

    /// The empty span at offset 0, used before any token has been consumed.
    pub fn dummy() -> (s: Span)
        ensures
            s.start == 0,
            s.end == 0,
    {
        Span { start: 0, end: 0 }
    }

    /// Smallest span covering both `self` and `other`.
    pub open spec fn spec_merge(self, other: Span) -> Span {
        Span {
            start: if self.start <= other.start { self.start } else { other.start },
            end: if self.end >= other.end { self.end } else { other.end },
        }
    }

    /// Smallest span covering both `self` and `other`.
    pub fn merge(self, other: Span) -> (s: Span)
        ensures
            s == self.spec_merge(other),
    {
        let start = if self.start <= other.start { self.start } else { other.start };
        let end = if self.end >= other.end { self.end } else { other.end };
        Span { start, end }
    }

    /// Number of bytes covered (zero when `end` does not exceed `start`).
    pub fn len(self) -> (n: u32)
        ensures
            n == (if self.end >= self.start { self.end - self.start } else { 0 }),
    {
        if self.end >= self.start {
            self.end - self.start
        } else {
            0
        }
    }
}

} // verus!
