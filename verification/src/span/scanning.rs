//! Looking at what a span covers: search, iteration and comparison.
//!
//! Each of these makes the content first and then asks the carrier: a span adds nothing but
//! the confinement to its range. Offsets that come back count from the start of the content.

use super::Span;
use crate::carrier::callable_on;
use crate::carrier::found_as_searched;
use crate::carrier::indexed_as_laid_out;
use crate::carrier::prefix_comparison;
use crate::carrier::Carrier;
use crate::carrier::Comparison;
use crate::carrier::Needed;
use vstd::prelude::*;

verus! {

impl<T: Carrier> Span<T> {
    /// The offset in the content of the first item on which the predicate answers `true`.
    pub fn position<P: Fn(T::Item) -> bool>(&self, predicate: P) -> (found: Option<usize>)
        requires
            self@.aligned(),
            callable_on(T::items(self@.content()), predicate),
        ensures
            found_as_searched::<T, P>(self@.content(), predicate, found),
    {
        self.as_inner().position(predicate)
    }

    /// The items of the content, in order.
    pub fn iter_elements(&self) -> (elements: Vec<T::Item>)
        requires
            self@.aligned(),
        ensures
            elements@ == T::items(self@.content()),
    {
        self.as_inner().iter_elements()
    }

    /// The items of the content, each with the offset in the content at which it starts.
    pub fn iter_indices(&self) -> (indexed: Vec<(usize, T::Item)>)
        requires
            self@.aligned(),
        ensures
            indexed_as_laid_out::<T>(self@.content(), indexed@),
    {
        self.as_inner().iter_indices()
    }

    /// The offset in the content at which the item of number `count` starts, or the content's
    /// length where it holds exactly `count` items.
    pub fn slice_index(&self, count: usize) -> (index: Result<usize, Needed>)
        requires
            self@.aligned(),
        ensures
            match index {
                Ok(at) => {
                    &&& count <= T::items(self@.content()).len()
                    &&& at <= self@.len()
                    &&& T::is_cut(self@.content(), at as int)
                    &&& T::items(self@.content().subrange(0, at as int)).len() == count
                },
                Err(needed) => {
                    &&& T::items(self@.content()).len() < count
                    &&& needed == T::shortfall(self@.content(), count as int)
                },
            },
    {
        self.as_inner().slice_index(count)
    }

    /// Compares the content with a literal, unit by unit.
    pub fn compare(&self, literal: T) -> (comparison: Comparison)
        requires
            self@.aligned(),
        ensures
            comparison == prefix_comparison(self@.content(), literal.units()),
    {
        self.as_inner().compare(literal)
    }

    /// Compares the content with a literal, ignoring case.
    pub fn compare_no_case(&self, literal: T) -> (comparison: Comparison)
        requires
            self@.aligned(),
        ensures
            comparison == T::caseless_comparison(self@.content(), literal.units()),
    {
        self.as_inner().compare_no_case(literal)
    }
}

} // verus!
