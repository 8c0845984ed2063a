//! Dividing a span at the first item that satisfies a predicate.
//!
//! The search is the carrier's. What a search result means is decided here, by two choices of
//! the caller: whether more input may still arrive (streaming) or not (complete), and whether
//! an empty first part is accepted or is an error.

use super::Span;
use super::SpanView;
use crate::carrier::all_fail;
use crate::carrier::callable_on;
use crate::carrier::first_holds;
use crate::carrier::found_as_searched;
use crate::carrier::Carrier;
use crate::carrier::Needed;
use nom::error::ErrorKind;
use vstd::prelude::*;

verus! {

/// nom's tag for the kind of a parse error. It is carried through and never looked into.
#[verifier::external_type_specification]
#[verifier::external_body]
pub struct ExErrorKind(nom::error::ErrorKind);

/// Whether the span's end is the end of all input.
#[derive(Copy, Clone, PartialEq, Eq, Structural, Debug)]
pub enum Mode {
    /// More input may arrive: a search that finds nothing decides nothing.
    Streaming,
    /// No more input will arrive: a search that finds nothing takes all.
    Complete,
}

/// Why a span was not divided.
#[derive(PartialEq, Eq)]
pub enum SplitError<T> {
    /// The span does not hold enough to decide; more input is needed.
    Incomplete(Needed),
    /// Nothing would have been taken where something had to be: the span at which this
    /// happened and the kind that the caller gave.
    Error(Span<T>, ErrorKind),
}

/// What remains and what was taken, in this order; or why nothing was taken.
pub type SplitResult<T> = Result<(Span<T>, Span<T>), SplitError<T>>;

/// What becomes of a span after a search.
pub enum Split<T> {
    /// The span is divided.
    Parts { rest: SpanView<T>, taken: SpanView<T> },
    /// More input is needed.
    Incomplete(Needed),
    /// A definitive error at `at`.
    Error { at: SpanView<T>, kind: ErrorKind },
}

/// What becomes of `span` after a search that gave `found`.
///
/// A find at `at` divides the span there; a find at zero is an error where at least one item
/// has to be taken. Nothing found means more input is needed while streaming. In complete mode
/// it means that the whole span is taken, which is an error where the span is empty and at
/// least one item has to be taken.
pub open spec fn decide<T: Carrier>(
    span: SpanView<T>,
    found: Option<usize>,
    mode: Mode,
    one_or_more: Option<ErrorKind>,
) -> Split<T> {
    match found {
        Some(at) => if at == 0 && one_or_more is Some {
            Split::Error { at: span, kind: one_or_more->0 }
        } else {
            Split::Parts { rest: span.slice_from(at as nat), taken: span.slice_to(at as nat) }
        },
        None => match mode {
            Mode::Streaming => Split::Incomplete(Needed::Size(1)),
            Mode::Complete => if span.len() == 0 && one_or_more is Some {
                Split::Error { at: span, kind: one_or_more->0 }
            } else {
                Split::Parts {
                    rest: span.slice_from(span.len()),
                    taken: span.slice_to(span.len()),
                }
            },
        },
    }
}

/// The result says what `split` says.
pub open spec fn tells<T>(result: SplitResult<T>, split: Split<T>) -> bool {
    match split {
        Split::Parts { rest, taken } => result matches Ok(parts) && parts.0@ == rest && parts.1@
            == taken,
        Split::Incomplete(needed) => result matches Err(SplitError::Incomplete(n)) && n == needed,
        Split::Error { at, kind } => result matches Err(SplitError::Error(span, k)) && span@ == at
            && k == kind,
    }
}

/// The result is what [`decide`] gives for some search result that the predicate's answers
/// allow.
pub open spec fn split_as_searched<T: Carrier, P: Fn(T::Item) -> bool>(
    span: SpanView<T>,
    predicate: P,
    mode: Mode,
    one_or_more: Option<ErrorKind>,
    result: SplitResult<T>,
) -> bool {
    exists|found: Option<usize>|
        found_as_searched::<T, P>(span.content(), predicate, found) && tells(
            result,
            #[trigger] decide(span, found, mode, one_or_more),
        )
}

/// Where the span was divided: the parts are the span's slices up to and from the length of
/// what was taken, and cover the content before and behind that length. The predicate
/// answered `false` on every item taken. What remains starts with an item on which it
/// answered `true`, or, in complete mode, may be empty. The parts are ordered and aligned
/// where the span was ordered.
pub open spec fn parts_as_searched<T: Carrier, P: Fn(T::Item) -> bool>(
    span: SpanView<T>,
    predicate: P,
    mode: Mode,
    result: SplitResult<T>,
) -> bool {
    result matches Ok(parts) ==> {
        &&& parts.1@.len() <= span.len()
        &&& parts.1@ == span.slice_to(parts.1@.len())
        &&& parts.0@ == span.slice_from(parts.1@.len())
        &&& parts.1@.content() == span.content().subrange(0, parts.1@.len() as int)
        &&& parts.0@.content() == span.content().subrange(
            parts.1@.len() as int,
            span.len() as int,
        )
        &&& all_fail(T::items(parts.1@.content()), predicate)
        &&& first_holds(T::items(parts.0@.content()), predicate) || (mode == Mode::Complete
            && parts.0@.len() == 0)
        &&& span.ordered() ==> parts.0@.ordered() && parts.0@.aligned() && parts.1@.ordered()
            && parts.1@.aligned()
    }
}

/// Where the span was not divided. More input is asked for only while streaming, and only
/// where the predicate answered `false` on every item. An error names the span and the kind
/// that the caller gave, and comes only where the predicate answered `true` on the first
/// item, or, in complete mode, where the span is empty.
pub open spec fn refusal_as_searched<T: Carrier, P: Fn(T::Item) -> bool>(
    span: SpanView<T>,
    predicate: P,
    mode: Mode,
    one_or_more: Option<ErrorKind>,
    result: SplitResult<T>,
) -> bool {
    match result {
        Ok(_) => true,
        Err(SplitError::Incomplete(needed)) => {
            &&& mode == Mode::Streaming
            &&& needed == Needed::Size(1)
            &&& all_fail(T::items(span.content()), predicate)
        },
        Err(SplitError::Error(at, kind)) => {
            &&& at@ == span
            &&& one_or_more == Some(kind)
            &&& first_holds(T::items(span.content()), predicate) || (mode == Mode::Complete
                && span.len() == 0)
        },
    }
}

impl<T: Carrier> SpanView<T> {
    /// A span divided within its length: the two parts cover the content before and behind
    /// the division.
    pub proof fn lemma_parts_content(self, at: nat)
        requires
            at <= self.len(),
        ensures
            self.slice_to(at).len() == at,
            self.slice_from(at).len() == self.len() - at,
            self.slice_to(at).content() == self.content().subrange(0, at as int),
            self.slice_from(at).content() == self.content().subrange(
                at as int,
                self.len() as int,
            ),
    {
    }

    /// An ordered and aligned span divided at a cut of its content: both parts are ordered and
    /// aligned.
    pub proof fn lemma_parts_aligned(self, at: nat)
        requires
            self.ordered(),
            self.aligned(),
            at <= self.len(),
            T::is_cut(self.content(), at as int),
        ensures
            self.slice_to(at).ordered(),
            self.slice_to(at).aligned(),
            self.slice_from(at).ordered(),
            self.slice_from(at).aligned(),
    {
        self.carrier.lemma_cuts_of_part(self.lower() as int, self.upper() as int, at as int);
    }
}

impl<T: Carrier> Span<T> {
    /// Divides the span as a search result asks.
    pub fn split_found(
        &self,
        found: Option<usize>,
        mode: Mode,
        one_or_more: Option<ErrorKind>,
    ) -> (result: SplitResult<T>)
        requires
            found matches Some(at) ==> self@.start + at <= usize::MAX,
        ensures
            tells(result, decide(self@, found, mode, one_or_more)),
    {
        match found {
            Some(at) => {
                match one_or_more {
                    Some(kind) if at == 0 => Err(SplitError::Error(*self, kind)),
                    _ => Ok(self.take_split(at)),
                }
            },
            None => {
                match mode {
                    Mode::Streaming => Err(SplitError::Incomplete(Needed::new(1))),
                    Mode::Complete => {
                        let length: usize = self.input_len();
                        match one_or_more {
                            Some(kind) if length == 0 => Err(SplitError::Error(*self, kind)),
                            _ => Ok(self.take_split(length)),
                        }
                    },
                }
            },
        }
    }

    /// Searches the content for the first item on which the predicate answers `true` and
    /// divides the span as [`Span::split_found`] does for what the search gave. The mode, and
    /// the kind of error where at least one item has to be taken, are the caller's to say.
    pub fn split_at_position_with<P: Fn(T::Item) -> bool>(
        &self,
        predicate: P,
        mode: Mode,
        one_or_more: Option<ErrorKind>,
    ) -> (result: SplitResult<T>)
        requires
            self@.aligned(),
            callable_on(T::items(self@.content()), predicate),
        ensures
            split_as_searched(self@, predicate, mode, one_or_more, result),
            parts_as_searched(self@, predicate, mode, result),
            refusal_as_searched(self@, predicate, mode, one_or_more, result),
            one_or_more is Some ==> (result matches Ok(parts) ==> parts.1@.len() > 0),
    {
        let found = self.position(predicate);
        let result = self.split_found(found, mode, one_or_more);
        proof {
            let at: nat = match found {
                Some(at) => at as nat,
                None => self@.len(),
            };
            self@.lemma_parts_content(at);
            if self@.ordered() {
                if found is None {
                    self@.carrier.lemma_cuts_of_part(
                        self@.lower() as int,
                        self@.upper() as int,
                        at as int,
                    );
                }
                self@.lemma_parts_aligned(at);
            }
        }
        result
    }

    /// Divides the span before the first item on which the predicate answers `true`; asks for
    /// more input where there is none.
    pub fn split_at_position<P: Fn(T::Item) -> bool>(&self, predicate: P) -> (result: SplitResult<
        T,
    >)
        requires
            self@.aligned(),
            callable_on(T::items(self@.content()), predicate),
        ensures
            split_as_searched(self@, predicate, Mode::Streaming, None, result),
            parts_as_searched(self@, predicate, Mode::Streaming, result),
            refusal_as_searched(self@, predicate, Mode::Streaming, None, result),
    {
        self.split_at_position_with(predicate, Mode::Streaming, None)
    }

    /// Divides the span before the first item on which the predicate answers `true`; takes the
    /// whole span where there is none.
    pub fn split_at_position_complete<P: Fn(T::Item) -> bool>(&self, predicate: P) -> (result:
        SplitResult<T>)
        requires
            self@.aligned(),
            callable_on(T::items(self@.content()), predicate),
        ensures
            split_as_searched(self@, predicate, Mode::Complete, None, result),
            parts_as_searched(self@, predicate, Mode::Complete, result),
            refusal_as_searched(self@, predicate, Mode::Complete, None, result),
    {
        self.split_at_position_with(predicate, Mode::Complete, None)
    }

    /// As [`Span::split_at_position`], but an empty first part is an error of kind `e`.
    pub fn split_at_position1<P: Fn(T::Item) -> bool>(&self, predicate: P, e: ErrorKind) -> (result:
        SplitResult<T>)
        requires
            self@.aligned(),
            callable_on(T::items(self@.content()), predicate),
        ensures
            split_as_searched(self@, predicate, Mode::Streaming, Some(e), result),
            parts_as_searched(self@, predicate, Mode::Streaming, result),
            refusal_as_searched(self@, predicate, Mode::Streaming, Some(e), result),
            result matches Ok(parts) ==> parts.1@.len() > 0,
    {
        self.split_at_position_with(predicate, Mode::Streaming, Some(e))
    }

    /// As [`Span::split_at_position_complete`], but an empty first part is an error of kind
    /// `e`: also where the span itself is empty.
    pub fn split_at_position1_complete<P: Fn(T::Item) -> bool>(
        &self,
        predicate: P,
        e: ErrorKind,
    ) -> (result: SplitResult<T>)
        requires
            self@.aligned(),
            callable_on(T::items(self@.content()), predicate),
        ensures
            split_as_searched(self@, predicate, Mode::Complete, Some(e), result),
            parts_as_searched(self@, predicate, Mode::Complete, result),
            refusal_as_searched(self@, predicate, Mode::Complete, Some(e), result),
            result matches Ok(parts) ==> parts.1@.len() > 0,
    {
        self.split_at_position_with(predicate, Mode::Complete, Some(e))
    }
}

} // verus!
