//! What a span needs from the sequence it looks into.
//!
//! A carrier is a shared, immutable sequence of native units (the bytes of a text or of a byte
//! buffer). Offsets count units. The items that a predicate sees (characters, bytes) each take
//! one or more units, so only some offsets are cuts: places where the carrier can be divided
//! without splitting an item.

use std::ops::Range;
use vstd::prelude::*;

verus! {

/// How a content stands to a literal.
#[derive(Copy, Clone, PartialEq, Eq, Structural, Debug)]
pub enum Comparison {
    /// The literal is a prefix of the content.
    Match,
    /// The content is a proper prefix of the literal: more input could still complete it.
    NeedsMore,
    /// Neither is a prefix of the other.
    NoMatch,
}

/// How much more input an operation asks for.
#[derive(Copy, Clone, PartialEq, Eq, Structural, Debug)]
pub enum Needed {
    /// More input, of unknown amount.
    Unknown,
    /// This many more units; never zero.
    Size(usize),
}

impl Needed {
    /// `Size(size)`, or `Unknown` where `size` is zero.
    pub fn new(size: usize) -> (needed: Needed)
        ensures
            needed == (if size == 0 {
                Needed::Unknown
            } else {
                Needed::Size(size)
            }),
    {
        if size == 0 {
            Needed::Unknown
        } else {
            Needed::Size(size)
        }
    }
}

/// Unit by unit: `Match` where `literal` is a prefix of `content`, `NeedsMore` where `content`
/// is a proper prefix of `literal`, `NoMatch` where they part ways.
pub open spec fn prefix_comparison<U>(content: Seq<U>, literal: Seq<U>) -> Comparison {
    if literal.is_prefix_of(content) {
        Comparison::Match
    } else if content.is_prefix_of(literal) {
        Comparison::NeedsMore
    } else {
        Comparison::NoMatch
    }
}

/// The predicate may be called on every one of `items`.
pub open spec fn callable_on<I, P: Fn(I) -> bool>(items: Seq<I>, predicate: P) -> bool {
    forall|k: int| 0 <= k < items.len() ==> call_requires(predicate, (#[trigger] items[k],))
}

/// The predicate answered `false` on every one of `items`.
pub open spec fn all_fail<I, P: Fn(I) -> bool>(items: Seq<I>, predicate: P) -> bool {
    forall|k: int| 0 <= k < items.len() ==> call_ensures(predicate, (#[trigger] items[k],), false)
}

/// There is a first item, and the predicate answered `true` on it.
pub open spec fn first_holds<I, P: Fn(I) -> bool>(items: Seq<I>, predicate: P) -> bool {
    items.len() > 0 && call_ensures(predicate, (items[0],), true)
}

/// A sequence that spans can look into.
pub trait Carrier: Copy + Sized {
    /// What offsets count.
    type Unit;

    /// What predicates see.
    type Item;

    /// The units, in order.
    spec fn units(&self) -> Seq<Self::Unit>;

    /// Whether units of this kind can be divided at `at`: an item starts there, or they end
    /// there.
    spec fn is_cut(units: Seq<Self::Unit>, at: int) -> bool;

    /// The items that the units hold, in order.
    spec fn items(units: Seq<Self::Unit>) -> Seq<Self::Item>;

    /// What a comparison that ignores case gives for these units.
    spec fn caseless_comparison(content: Seq<Self::Unit>, literal: Seq<Self::Unit>) -> Comparison;

    /// What is asked for where `units` hold fewer than `count` items.
    spec fn shortfall(units: Seq<Self::Unit>, count: int) -> Needed;

    /// A carrier can be divided at its start and at its end.
    proof fn lemma_ends_are_cuts(&self)
        ensures
            Self::is_cut(self.units(), 0),
            Self::is_cut(self.units(), self.units().len() as int),
    ;

    /// The cuts of a part that lies between two cuts are the cuts of the whole.
    proof fn lemma_cuts_of_part(&self, low: int, high: int, at: int)
        requires
            0 <= low <= high <= self.units().len(),
            Self::is_cut(self.units(), low),
            Self::is_cut(self.units(), high),
            0 <= at <= high - low,
        ensures
            Self::is_cut(self.units().subrange(low, high), at) == Self::is_cut(
                self.units(),
                low + at,
            ),
    ;

    /// A part that lies between two cuts, divided at one of its cuts, holds the items before
    /// the division followed by those behind it.
    proof fn lemma_items_of_parts(&self, low: int, high: int, at: int)
        requires
            0 <= low <= high <= self.units().len(),
            Self::is_cut(self.units(), low),
            Self::is_cut(self.units(), high),
            0 <= at <= high - low,
            Self::is_cut(self.units().subrange(low, high), at),
        ensures
            Self::items(self.units().subrange(low, high)) == Self::items(
                self.units().subrange(low, high).subrange(0, at),
            ) + Self::items(self.units().subrange(low, high).subrange(at, high - low)),
    ;

    /// The number of units.
    fn input_len(&self) -> (n: usize)
        ensures
            n == self.units().len(),
    ;

    /// Whether the carrier can be divided at `at`.
    fn is_boundary(&self, at: usize) -> (b: bool)
        ensures
            b == (at <= self.units().len() && Self::is_cut(self.units(), at as int)),
    ;

    /// The part between two cuts.
    fn slice(&self, range: Range<usize>) -> (part: Self)
        requires
            range.start <= range.end <= self.units().len(),
            Self::is_cut(self.units(), range.start as int),
            Self::is_cut(self.units(), range.end as int),
        ensures
            part.units() == self.units().subrange(range.start as int, range.end as int),
    ;

    /// The offset of the first item on which the predicate answers `true`.
    fn position<P: Fn(Self::Item) -> bool>(&self, predicate: P) -> (found: Option<usize>)
        requires
            callable_on(Self::items(self.units()), predicate),
        ensures
            match found {
                Some(at) => {
                    &&& at < self.units().len()
                    &&& Self::is_cut(self.units(), at as int)
                    &&& all_fail(Self::items(self.units().subrange(0, at as int)), predicate)
                    &&& first_holds(
                        Self::items(
                            self.units().subrange(at as int, self.units().len() as int),
                        ),
                        predicate,
                    )
                },
                None => all_fail(Self::items(self.units()), predicate),
            },
    ;

    /// The items, in order.
    fn iter_elements(&self) -> (elements: Vec<Self::Item>)
        ensures
            elements@ == Self::items(self.units()),
    ;

    /// The items, each with the offset at which it starts.
    fn iter_indices(&self) -> (indexed: Vec<(usize, Self::Item)>)
        ensures
            indexed@.len() == Self::items(self.units()).len(),
            forall|k: int|
                0 <= k < indexed@.len() ==> {
                    &&& (#[trigger] indexed@[k]).0 < self.units().len()
                    &&& Self::is_cut(self.units(), indexed@[k].0 as int)
                    &&& Self::items(self.units().subrange(0, indexed@[k].0 as int)).len() == k
                    &&& indexed@[k].1 == Self::items(self.units())[k]
                },
    ;

    /// The offset at which the item of number `count` starts, or the end where there are
    /// exactly `count` items.
    fn slice_index(&self, count: usize) -> (index: Result<usize, Needed>)
        ensures
            match index {
                Ok(at) => {
                    &&& count <= Self::items(self.units()).len()
                    &&& at <= self.units().len()
                    &&& Self::is_cut(self.units(), at as int)
                    &&& Self::items(self.units().subrange(0, at as int)).len() == count
                },
                Err(needed) => {
                    &&& Self::items(self.units()).len() < count
                    &&& needed == Self::shortfall(self.units(), count as int)
                },
            },
    ;

    /// Compares the units with those of a literal.
    fn compare(&self, literal: Self) -> (comparison: Comparison)
        ensures
            comparison == prefix_comparison(self.units(), literal.units()),
    ;

    /// Compares with a literal, ignoring case.
    fn compare_no_case(&self, literal: Self) -> (comparison: Comparison)
        ensures
            comparison == Self::caseless_comparison(self.units(), literal.units()),
    ;
}

/// What a search for the first item that satisfies `predicate` gives on `units`: the cut at
/// which that item starts, all items before it having failed; or nothing, all items having
/// failed.
pub open spec fn found_as_searched<C: Carrier, P: Fn(C::Item) -> bool>(
    units: Seq<C::Unit>,
    predicate: P,
    found: Option<usize>,
) -> bool {
    match found {
        Some(at) => {
            &&& at < units.len()
            &&& C::is_cut(units, at as int)
            &&& all_fail(C::items(units.subrange(0, at as int)), predicate)
            &&& first_holds(C::items(units.subrange(at as int, units.len() as int)), predicate)
        },
        None => all_fail(C::items(units), predicate),
    }
}

/// `indexed` lists the items of `units` in order, each with the cut at which it starts: the
/// units before that cut hold exactly the items before it.
pub open spec fn indexed_as_laid_out<C: Carrier>(
    units: Seq<C::Unit>,
    indexed: Seq<(usize, C::Item)>,
) -> bool {
    &&& indexed.len() == C::items(units).len()
    &&& forall|k: int|
        0 <= k < indexed.len() ==> {
            &&& (#[trigger] indexed[k]).0 < units.len()
            &&& C::is_cut(units, indexed[k].0 as int)
            &&& C::items(units.subrange(0, indexed[k].0 as int)).len() == k
            &&& indexed[k].1 == C::items(units)[k]
        }
}

} // verus!
