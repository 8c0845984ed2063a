//! A byte buffer as a carrier: every byte is a unit and an item, and every offset is a cut.

use crate::carrier::all_fail;
use crate::carrier::callable_on;
use crate::carrier::prefix_comparison;
use crate::carrier::Carrier;
use crate::carrier::Comparison;
use crate::carrier::Needed;
use crate::span::SpanView;
use std::ops::Range;
use vstd::prelude::*;

verus! {

/// An upper-case ASCII letter as its lower-case one; any other byte as it is.
pub open spec fn ascii_lower(byte: u8) -> u8 {
    if 0x41 <= byte <= 0x5a {
        (byte + 0x20) as u8
    } else {
        byte
    }
}

/// The bytes, each through [`ascii_lower`].
pub open spec fn ascii_lowered(bytes: Seq<u8>) -> Seq<u8> {
    bytes.map_values(|byte: u8| ascii_lower(byte))
}

/// nom's `InputLength::input_len` on a byte slice: the number of bytes.
#[verifier::external_body]
fn bytes_input_len(bytes: &[u8]) -> (n: usize)
    ensures
        n == bytes@.len(),
{
    nom::InputLength::input_len(&bytes)
}

/// nom's `Slice::slice` on a byte slice, which indexes it by the range: the bytes from
/// `range.start` up to `range.end`. A range that is reversed or reaches past the end is left
/// out.
#[verifier::external_body]
fn bytes_slice<'a>(bytes: &'a [u8], range: Range<usize>) -> (part: &'a [u8])
    requires
        range.start <= range.end <= bytes@.len(),
    ensures
        part@ == bytes@.subrange(range.start as int, range.end as int),
{
    nom::Slice::slice(&bytes, range)
}

/// nom's `InputIter::position` on a byte slice: it calls the predicate on the bytes in order
/// and stops at the first `true`, whose index it returns; `None` where every answer was
/// `false`.
#[verifier::external_body]
fn bytes_position<P: Fn(u8) -> bool>(bytes: &[u8], predicate: P) -> (found: Option<usize>)
    requires
        callable_on(bytes@, predicate),
    ensures
        match found {
            Some(at) => {
                &&& at < bytes@.len()
                &&& all_fail(bytes@.subrange(0, at as int), predicate)
                &&& call_ensures(predicate, (bytes@[at as int],), true)
            },
            None => all_fail(bytes@, predicate),
        },
{
    nom::InputIter::position(&bytes, predicate)
}

/// nom's `InputIter::iter_elements` on a byte slice, collected: the bytes in order.
#[verifier::external_body]
fn bytes_iter_elements(bytes: &[u8]) -> (elements: Vec<u8>)
    ensures
        elements@ == bytes@,
{
    nom::InputIter::iter_elements(&bytes).collect()
}

/// nom's `InputIter::iter_indices` on a byte slice, collected: each byte with its index.
#[verifier::external_body]
fn bytes_iter_indices(bytes: &[u8]) -> (indexed: Vec<(usize, u8)>)
    ensures
        indexed@.len() == bytes@.len(),
        forall|k: int|
            0 <= k < bytes@.len() ==> (#[trigger] indexed@[k]).0 == k && indexed@[k].1 == bytes@[k],
{
    nom::InputIter::iter_indices(&bytes).collect()
}

/// nom's `InputIter::slice_index` on a byte slice: `count` itself where the slice holds that
/// many bytes, else the number of bytes that are missing.
#[verifier::external_body]
fn bytes_slice_index(bytes: &[u8], count: usize) -> (index: Result<usize, Needed>)
    ensures
        index == (if count <= bytes@.len() {
            Ok::<usize, Needed>(count)
        } else {
            Err::<usize, Needed>(Needed::Size((count - bytes@.len()) as usize))
        }),
{
    match nom::InputIter::slice_index(&bytes, count) {
        Ok(at) => Ok(at),
        Err(nom::Needed::Unknown) => Err(Needed::Unknown),
        Err(nom::Needed::Size(size)) => Err(Needed::Size(size.get())),
    }
}

/// nom's `Compare::compare` of a byte slice with another: it looks for the first index at
/// which both have a byte and the bytes differ; without one, the longer decides.
#[verifier::external_body]
fn bytes_compare(bytes: &[u8], literal: &[u8]) -> (comparison: Comparison)
    ensures
        comparison == prefix_comparison(bytes@, literal@),
{
    match nom::Compare::compare(&bytes, literal) {
        nom::CompareResult::Ok => Comparison::Match,
        nom::CompareResult::Incomplete => Comparison::NeedsMore,
        nom::CompareResult::Error => Comparison::NoMatch,
    }
}

/// nom's `Compare::compare_no_case` of a byte slice with another: as `compare`, on the bytes
/// with the ASCII letters `A` to `Z` taken as `a` to `z`.
#[verifier::external_body]
fn bytes_compare_no_case(bytes: &[u8], literal: &[u8]) -> (comparison: Comparison)
    ensures
        comparison == prefix_comparison(ascii_lowered(bytes@), ascii_lowered(literal@)),
{
    match nom::Compare::compare_no_case(&bytes, literal) {
        nom::CompareResult::Ok => Comparison::Match,
        nom::CompareResult::Incomplete => Comparison::NeedsMore,
        nom::CompareResult::Error => Comparison::NoMatch,
    }
}

/// A byte buffer can be divided anywhere: every span over one is aligned.
pub proof fn lemma_bytes_are_aligned(span: SpanView<&[u8]>)
    ensures
        span.aligned(),
{
}

impl<'a> Carrier for &'a [u8] {
    type Unit = u8;

    type Item = u8;

    open spec fn units(&self) -> Seq<u8> {
        self@
    }

    open spec fn is_cut(units: Seq<u8>, at: int) -> bool {
        0 <= at <= units.len()
    }

    open spec fn items(units: Seq<u8>) -> Seq<u8> {
        units
    }

    open spec fn caseless_comparison(content: Seq<u8>, literal: Seq<u8>) -> Comparison {
        prefix_comparison(ascii_lowered(content), ascii_lowered(literal))
    }

    open spec fn shortfall(units: Seq<u8>, count: int) -> Needed {
        Needed::Size((count - units.len()) as usize)
    }

    proof fn lemma_ends_are_cuts(&self) {
    }

    proof fn lemma_cuts_of_part(&self, low: int, high: int, at: int) {
    }

    proof fn lemma_items_of_parts(&self, low: int, high: int, at: int) {
    }

    fn input_len(&self) -> (n: usize) {
        bytes_input_len(*self)
    }

    fn is_boundary(&self, at: usize) -> (b: bool) {
        at <= bytes_input_len(*self)
    }

    fn slice(&self, range: Range<usize>) -> (part: Self) {
        bytes_slice(*self, range)
    }

    fn position<P: Fn(u8) -> bool>(&self, predicate: P) -> (found: Option<usize>) {
        bytes_position(*self, predicate)
    }

    fn iter_elements(&self) -> (elements: Vec<u8>) {
        bytes_iter_elements(*self)
    }

    fn iter_indices(&self) -> (indexed: Vec<(usize, u8)>) {
        bytes_iter_indices(*self)
    }

    fn slice_index(&self, count: usize) -> (index: Result<usize, Needed>) {
        bytes_slice_index(*self, count)
    }

    fn compare(&self, literal: Self) -> (comparison: Comparison) {
        bytes_compare(*self, literal)
    }

    fn compare_no_case(&self, literal: Self) -> (comparison: Comparison) {
        bytes_compare_no_case(*self, literal)
    }
}

} // verus!
