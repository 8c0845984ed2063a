//! The library's own operations on small carriers.

use input_span::Comparison;
use input_span::Needed;
use input_span::Span;
use input_span::SplitError;
use nom::error::ErrorKind;

fn not_alphabetic(c: char) -> bool {
    !c.is_ascii_alphabetic()
}

#[test]
fn whole_text_compares_with_literals() {
    let carrier = "hello";
    let span = Span::from(carrier);
    assert_eq!(span.range(), 0..5);
    assert!(span == Span::new(carrier, 0, 5));
    assert_eq!(span.compare("hello"), Comparison::Match);
    assert_eq!(span.compare("hellx"), Comparison::NoMatch);
    assert_eq!(span.compare("hell"), Comparison::Match);
    assert_eq!(span.compare("hello!"), Comparison::NeedsMore);
    assert_eq!(span.compare(""), Comparison::Match);
}

#[test]
fn take_split_then_alphabetic_run() {
    let carrier = "thinghello";
    let span = Span::from(carrier);
    let (remainder, taken) = span.take_split(5);
    assert_eq!(taken.as_inner(), "thing");
    assert_eq!(taken.range(), 0..5);
    assert_eq!(remainder.as_inner(), "hello");
    assert_eq!(remainder.range(), 5..10);

    let result = remainder.split_at_position1_complete(not_alphabetic, ErrorKind::Alpha);
    match result {
        Ok((rest, run)) => {
            assert_eq!(rest.range(), 10..10);
            assert_eq!(run.range(), 5..10);
            assert!(rest == Span::new(carrier, 10, 10));
            assert!(run == Span::new(carrier, 5, 10));
        }
        Err(_) => panic!("the run of letters was not taken"),
    }
}

#[test]
fn one_or_more_on_empty_span_in_complete_mode_is_an_error() {
    let carrier = "hello";
    let empty = Span::new(carrier, 2, 2);
    let result = empty.split_at_position1_complete(not_alphabetic, ErrorKind::Alpha);
    assert!(result == Err(SplitError::Error(empty, ErrorKind::Alpha)));

    let at_end = Span::end(carrier);
    let result = at_end.split_at_position1_complete(not_alphabetic, ErrorKind::Digit);
    assert!(result == Err(SplitError::Error(at_end, ErrorKind::Digit)));
    assert!(!matches!(result, Err(SplitError::Incomplete(_))));
}

#[test]
fn one_or_more_on_empty_span_while_streaming_asks_for_more() {
    let empty = Span::new("hello", 2, 2);
    let result = empty.split_at_position1(not_alphabetic, ErrorKind::Alpha);
    assert!(result == Err(SplitError::Incomplete(Needed::Size(1))));
}

#[test]
fn end_marker_is_empty_at_the_end() {
    let carrier = "hello";
    let span = Span::end(carrier);
    assert_eq!(span.range(), 5..5);
    assert_eq!(span.input_len(), 0);
    assert_eq!(span.as_inner(), "");
    assert!(span.iter_elements().is_empty());
}

#[test]
fn end_past_the_carrier_is_clamped() {
    let carrier = "hello";
    let stale = Span::new(carrier, 2, 50);
    assert_eq!(stale.range(), 2..50);
    assert_eq!(stale.input_len(), 3);
    assert_eq!(stale.as_inner(), "llo");
    assert_eq!(stale.compare("llo"), Comparison::Match);
}

#[test]
fn start_past_the_end_covers_nothing() {
    let carrier = "hello";
    let beyond = Span::new(carrier, 9, 12);
    assert_eq!(beyond.input_len(), 0);
    assert_eq!(beyond.as_inner(), "");
    let reversed = Span::new(carrier, 4, 2);
    assert_eq!(reversed.input_len(), 0);
    assert_eq!(reversed.as_inner(), "");
}

#[test]
fn between_and_to_join_two_spans() {
    let carrier = "let x = 42;";
    let name = Span::new(carrier, 4, 5);
    let number = Span::new(carrier, 8, 10);
    let gap = Span::between(name, number);
    assert_eq!(gap.range(), 4..8);
    assert_eq!(gap.as_inner(), "x = ");
    let both = Span::to(name, number);
    assert_eq!(both.range(), 4..10);
    assert_eq!(both.as_inner(), "x = 42");
}

#[test]
fn slices_count_from_the_start_of_the_span() {
    let carrier = "0123456789";
    let span = Span::new(carrier, 2, 8);
    assert_eq!(span.slice(1..3).range(), 3..5);
    assert_eq!(span.slice(1..3).as_inner(), "34");
    assert_eq!(span.slice_from(4).range(), 6..8);
    assert_eq!(span.slice_to(4).range(), 2..6);
    assert!(span.slice_full() == span);
    assert_eq!(span.take(2).range(), 2..4);
    assert_eq!(span.take(2).as_inner(), "23");
}

#[test]
fn offset_is_the_distance_between_starts() {
    let carrier = "0123456789";
    let first = Span::new(carrier, 2, 8);
    let second = Span::new(carrier, 7, 9);
    assert_eq!(first.offset(&second), 5);
    assert_eq!(second.offset(&first), 0);
    assert_eq!(first.offset(&first), 0);
}

#[test]
fn default_span_is_empty_at_zero() {
    let span: Span<&str> = Span::default();
    assert_eq!(span.range(), 0..0);
    assert_eq!(span.input_len(), 0);
}
