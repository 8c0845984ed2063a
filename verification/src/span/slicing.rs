//! Sub-ranges of a span, by offsets counted from its start.
//!
//! Each of these is arithmetic on two integers: none looks at the carrier.

use super::Span;
use std::ops::Range;
use vstd::prelude::*;

verus! {

impl<T: Copy> Span<T> {
    /// The span from `range.start` to `range.end`, both counted from this span's start.
    pub fn slice(&self, range: Range<usize>) -> (part: Self)
        requires
            self@.start + range.start <= usize::MAX,
            self@.start + range.end <= usize::MAX,
        ensures
            part@ == self@.slice(range.start as nat, range.end as nat),
    {
        let start: usize = self.start + range.start;
        let end: usize = self.start + range.end;
        Self::new(self.inner, start, end)
    }

    /// The span from `from`, counted from this span's start, to this span's end.
    pub fn slice_from(&self, from: usize) -> (part: Self)
        requires
            self@.start + from <= usize::MAX,
        ensures
            part@ == self@.slice_from(from as nat),
    {
        let start: usize = self.start + from;
        let end: usize = self.end;
        Self::new(self.inner, start, end)
    }

    /// The span from this span's start to `to`, counted from that start.
    pub fn slice_to(&self, to: usize) -> (part: Self)
        requires
            self@.start + to <= usize::MAX,
        ensures
            part@ == self@.slice_to(to as nat),
    {
        let start: usize = self.start;
        let end: usize = self.start + to;
        Self::new(self.inner, start, end)
    }

    /// The span itself.
    pub fn slice_full(&self) -> (part: Self)
        ensures
            part == *self,
    {
        *self
    }

    /// The first `count` units of the span, as a span.
    pub fn take(&self, count: usize) -> (taken: Self)
        requires
            self@.start + count <= usize::MAX,
        ensures
            taken@ == self@.slice_to(count as nat),
    {
        self.slice_to(count)
    }

    /// The span divided at `count`: what follows the first `count` units, and those units.
    /// The two meet at `start + count`; the first keeps this span's end, the second its start.
    pub fn take_split(&self, count: usize) -> (parts: (Self, Self))
        requires
            self@.start + count <= usize::MAX,
        ensures
            parts.0@ == self@.slice_from(count as nat),
            parts.1@ == self@.slice_to(count as nat),
            parts.0@.start == parts.1@.end,
            parts.0@.end == self@.end,
            parts.1@.start == self@.start,
    {
        (self.slice_from(count), self.slice_to(count))
    }
}

} // verus!
