//! The span value: a carrier handle and a half-open range of native offsets into it.
//!
//! A span owns nothing but its handle and two integers. Every operation returns new spans over
//! the same carrier; none changes a span or the carrier.

use crate::carrier::Carrier;
use std::ops::Range;
use vstd::prelude::*;

pub mod number;
mod scanning;
mod slicing;
pub mod splitting;

verus! {

/// A sub-range `[start, end)` of a carrier, in the carrier's native offsets.
///
/// The bounds are not checked when a span is made: an end past the carrier's end is tolerated
/// and clamped wherever the content is looked at.
#[derive(Copy, Clone, PartialEq, Eq, PartialOrd, Ord, Hash, Default)]
pub struct Span<T> {
    inner: T,
    start: usize,
    end: usize,
}

/// What a span is: the carrier it looks into and its two offsets.
pub struct SpanView<T> {
    pub carrier: T,
    pub start: nat,
    pub end: nat,
}

impl<T> View for Span<T> {
    type V = SpanView<T>;

    closed spec fn view(&self) -> SpanView<T> {
        SpanView { carrier: self.inner, start: self.start as nat, end: self.end as nat }
    }
}

impl<T> SpanView<T> {
    /// The start does not lie behind the end.
    pub open spec fn ordered(self) -> bool {
        self.start <= self.end
    }

    /// The gap up to `second`: from this span's start to the start of `second`.
    pub open spec fn between(self, second: SpanView<T>) -> SpanView<T> {
        SpanView { carrier: self.carrier, start: self.start, end: second.start }
    }

    /// This span, `second` and what lies between them: from this span's start to the end of
    /// `second`.
    pub open spec fn to(self, second: SpanView<T>) -> SpanView<T> {
        SpanView { carrier: self.carrier, start: self.start, end: second.end }
    }

    /// The span from `from` to `to`, both counted from this span's start.
    pub open spec fn slice(self, from: nat, to: nat) -> SpanView<T> {
        SpanView { carrier: self.carrier, start: self.start + from, end: self.start + to }
    }

    /// The span from `from`, counted from this span's start, to this span's end.
    pub open spec fn slice_from(self, from: nat) -> SpanView<T> {
        SpanView { carrier: self.carrier, start: self.start + from, end: self.end }
    }

    /// The span from this span's start to `to`, counted from that start.
    pub open spec fn slice_to(self, to: nat) -> SpanView<T> {
        SpanView { carrier: self.carrier, start: self.start, end: self.start + to }
    }
}

impl<T: Carrier> SpanView<T> {
    /// The end, clamped to the carrier's length.
    pub open spec fn upper(self) -> nat {
        if self.end <= self.carrier.units().len() {
            self.end
        } else {
            self.carrier.units().len()
        }
    }

    /// The number of units between the start and the clamped end; zero where the start lies
    /// behind it.
    pub open spec fn len(self) -> nat {
        if self.start <= self.upper() {
            (self.upper() - self.start) as nat
        } else {
            0
        }
    }

    /// Where the content starts: the start, or the clamped end where the start lies behind it.
    pub open spec fn lower(self) -> nat {
        (self.upper() - self.len()) as nat
    }

    /// The units that the span covers.
    pub open spec fn content(self) -> Seq<T::Unit> {
        self.carrier.units().subrange(self.lower() as int, self.upper() as int)
    }

    /// The carrier can be divided where the content starts and where it ends.
    pub open spec fn aligned(self) -> bool {
        &&& T::is_cut(self.carrier.units(), self.lower() as int)
        &&& T::is_cut(self.carrier.units(), self.upper() as int)
    }
}

impl<T> Span<T> {
    /// A span over `inner` with the given bounds, which are taken as they are.
    pub fn new(inner: T, start: usize, end: usize) -> (span: Self)
        ensures
            span@ == (SpanView { carrier: inner, start: start as nat, end: end as nat }),
    {
        Self { inner, start, end }
    }

    /// The gap between two spans over one carrier: from the start of `first` to the start of
    /// `second`.
    pub fn between(first: Span<T>, second: Span<T>) -> (span: Self)
        ensures
            span@ == first@.between(second@),
    {
        Span::new(first.inner, first.start, second.start)
    }

    /// Both spans and all that lies between them: from the start of `first` to the end of
    /// `second`.
    pub fn to(first: Span<T>, second: Span<T>) -> (span: Self)
        ensures
            span@ == first@.to(second@),
    {
        Self::new(first.inner, first.start, second.end)
    }

    /// The bounds as a range of native offsets.
    pub fn range(&self) -> (range: Range<usize>)
        ensures
            range.start == self@.start,
            range.end == self@.end,
    {
        self.start..self.end
    }

    /// How far the start of `second` lies behind the start of this span; zero where it lies
    /// before it.
    pub fn offset(&self, second: &Self) -> (distance: usize)
        ensures
            distance == (if second@.start >= self@.start {
                second@.start - self@.start
            } else {
                0
            }),
    {
        second.start.saturating_sub(self.start)
    }

    /// A span's offsets are machine integers.
    pub proof fn lemma_view_in_range(self)
        ensures
            self@.start <= usize::MAX,
            self@.end <= usize::MAX,
    {
    }

    /// Spans with one view are one span.
    pub proof fn lemma_view_decides(self, other: Self)
        requires
            self@ == other@,
        ensures
            self == other,
    {
    }
}

impl<T: Carrier> Span<T> {
    /// The empty span at the end of `inner`: a mark for the end of input.
    pub fn end(inner: T) -> (span: Self)
        ensures
            span@ == (SpanView {
                carrier: inner,
                start: inner.units().len(),
                end: inner.units().len(),
            }),
            span@.len() == 0,
            span@.content() == Seq::<T::Unit>::empty(),
            span@.aligned(),
    {
        let length: usize = inner.input_len();
        proof {
            inner.lemma_ends_are_cuts();
        }
        Span::new(inner, length, length)
    }

    /// The number of units that the span covers in its carrier.
    pub fn input_len(&self) -> (n: usize)
        ensures
            n == self@.len(),
    {
        self.end.min(self.inner.input_len()).saturating_sub(self.start)
    }

    /// Where the content starts and where it ends in the carrier.
    fn clamped(&self) -> (bounds: Range<usize>)
        ensures
            bounds.start == self@.lower(),
            bounds.end == self@.upper(),
    {
        let length: usize = self.inner.input_len();
        let high: usize = if self.end <= length {
            self.end
        } else {
            length
        };
        let low: usize = if self.start <= high {
            self.start
        } else {
            high
        };
        low..high
    }

    /// Whether the carrier can be divided where the span's content starts and ends.
    pub fn is_aligned(&self) -> (aligned: bool)
        ensures
            aligned == self@.aligned(),
    {
        let bounds = self.clamped();
        self.inner.is_boundary(bounds.start) && self.inner.is_boundary(bounds.end)
    }

    /// The content: the carrier's part from the start to the clamped end, made when asked for
    /// and not kept.
    pub fn as_inner(&self) -> (content: T)
        requires
            self@.aligned(),
        ensures
            content.units() == self@.content(),
    {
        self.inner.slice(self.clamped())
    }
}

impl<T: Carrier> From<T> for Span<T> {
    /// The span over the whole of `inner`.
    fn from(inner: T) -> (span: Self)
        ensures
            span@ == (SpanView { carrier: inner, start: 0, end: inner.units().len() }),
            span@.len() == inner.units().len(),
            span@.content() == inner.units(),
            span@.aligned(),
    {
        let length: usize = inner.input_len();
        proof {
            inner.lemma_ends_are_cuts();
        }
        Self::new(inner, 0, length)
    }
}

impl<T: Carrier> vstd::std_specs::convert::FromSpecImpl<T> for Span<T> {
    open spec fn obeys_from_spec() -> bool {
        true
    }

    closed spec fn from_spec(inner: T) -> Span<T> {
        Span { inner, start: 0, end: inner.units().len() as usize }
    }
}

} // verus!
