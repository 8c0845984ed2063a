//! Position-tracked sub-ranges ("spans") over a shared, immutable carrier.
//!
//! A [`Span`] is a handle to a carrier (a text or a byte buffer) and a half-open range of
//! native offsets into it. A parsing engine hands spans around in place of the input itself:
//! it asks a span for its length, compares its content with literals, searches it with a
//! predicate and divides it into a taken part and a rest. Every answer is a new span over the
//! same carrier, so no payload is copied and every part still knows where in the source it
//! lies.

pub mod bytes;
pub mod carrier;
pub mod laws;
pub mod span;
pub mod text;

pub use carrier::Carrier;
pub use carrier::Comparison;
pub use carrier::Needed;
pub use span::number::parse_decimal_i64;
pub use span::splitting::Mode;
pub use span::splitting::SplitError;
pub use span::splitting::SplitResult;
pub use span::Span;
pub use span::SpanView;
