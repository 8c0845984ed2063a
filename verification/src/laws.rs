//! What holds of spans in general, stated over their views and proved.

use crate::carrier::Carrier;
use crate::span::Span;
use crate::span::SpanView;
use vstd::prelude::*;

verus! {

/// A span whose bounds lie in order within its carrier covers as many units as its bounds
/// are apart.
pub proof fn lemma_length_within_carrier<T: Carrier>(carrier: T, start: nat, end: nat)
    requires
        start <= end <= carrier.units().len(),
    ensures
        (SpanView { carrier, start, end }).len() == end - start,
        (SpanView { carrier, start, end }).content() == carrier.units().subrange(
            start as int,
            end as int,
        ),
{
}

/// A span never covers more than its bounds are apart, nor more than its carrier holds behind
/// its start.
pub proof fn lemma_length_is_clamped<T: Carrier>(span: SpanView<T>)
    ensures
        span.len() == span.content().len(),
        span.ordered() ==> span.len() <= span.end - span.start,
        span.start + span.len() <= span.carrier.units().len() || span.len() == 0,
{
}

/// Slicing composes: a slice of a slice is the slice at the summed offsets.
pub proof fn lemma_slicing_composes<T>(span: SpanView<T>, a: nat, b: nat, c: nat, d: nat)
    ensures
        span.slice(a, b).slice(c, d) == span.slice(a + c, a + d),
        span.slice(a, b).slice_from(c) == span.slice(a + c, b),
        span.slice(a, b).slice_to(d) == span.slice(a, a + d),
{
}

/// Slicing composes, for the spans themselves: where `outer` is the slice of `whole` from `a`
/// to `b` and `nested` the slice of `outer` from `c` to `d`, `nested` is the slice of `whole`
/// from `a + c` to `a + d`.
pub proof fn lemma_nested_slice_is_direct_slice<T>(
    whole: Span<T>,
    outer: Span<T>,
    nested: Span<T>,
    direct: Span<T>,
    a: nat,
    b: nat,
    c: nat,
    d: nat,
)
    requires
        outer@ == whole@.slice(a, b),
        nested@ == outer@.slice(c, d),
        direct@ == whole@.slice(a + c, a + d),
    ensures
        nested == direct,
{
    nested.lemma_view_decides(direct);
}

/// A count within a span's length can be taken: the division point is a machine integer.
pub proof fn lemma_count_within_length_fits<T: Carrier>(span: Span<T>, count: nat)
    requires
        count <= span@.len(),
    ensures
        span@.start + count <= usize::MAX,
{
    span.lemma_view_in_range();
}

/// A span divided within its length: the parts meet at the division, keep the outer bounds,
/// and cover between them what the span covers.
pub proof fn lemma_division_covers<T: Carrier>(span: SpanView<T>, count: nat)
    requires
        count <= span.len(),
    ensures
        span.slice_from(count).start == span.slice_to(count).end,
        span.slice_from(count).end == span.end,
        span.slice_to(count).start == span.start,
        span.slice_to(count).content() + span.slice_from(count).content() == span.content(),
{
}

/// An aligned span divided at a cut of its content: the items of the two parts, in this order,
/// are the items of the span. No item is lost and none comes twice.
pub proof fn lemma_division_keeps_items<T: Carrier>(span: SpanView<T>, count: nat)
    requires
        span.aligned(),
        count <= span.len(),
        T::is_cut(span.content(), count as int),
    ensures
        T::items(span.slice_to(count).content()) + T::items(span.slice_from(count).content())
            == T::items(span.content()),
{
    span.lemma_parts_content(count);
    span.carrier.lemma_items_of_parts(span.lower() as int, span.upper() as int, count as int);
}

/// The span from the start of `first` to the end of `second` covers the carrier of `first`
/// from that start to that end. An end past the carrier's end is clamped to it, and a start
/// behind the clamped end to that.
pub proof fn lemma_to_covers<T: Carrier>(first: SpanView<T>, second: SpanView<T>)
    ensures
        ({
            let units = first.carrier.units();
            let high = if second.end <= units.len() {
                second.end
            } else {
                units.len()
            };
            let low = if first.start <= high {
                first.start
            } else {
                high
            };
            first.to(second).content() == units.subrange(low as int, high as int)
        }),
        first.start <= second.end <= first.carrier.units().len() ==> first.to(second).content()
            == first.carrier.units().subrange(first.start as int, second.end as int),
{
}

/// The gap from the start of `first` to the start of `second` covers the carrier of `first`
/// between the two starts, clamped in the same way.
pub proof fn lemma_between_covers<T: Carrier>(first: SpanView<T>, second: SpanView<T>)
    ensures
        ({
            let units = first.carrier.units();
            let high = if second.start <= units.len() {
                second.start
            } else {
                units.len()
            };
            let low = if first.start <= high {
                first.start
            } else {
                high
            };
            first.between(second).content() == units.subrange(low as int, high as int)
        }),
        first.start <= second.start <= first.carrier.units().len() ==> first.between(
            second,
        ).content() == first.carrier.units().subrange(first.start as int, second.start as int),
{
}

} // verus!
