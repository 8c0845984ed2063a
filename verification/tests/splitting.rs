//! Dividing a span at a search result, in each mode.

use input_span::Mode;
use input_span::Needed;
use input_span::Span;
use input_span::SplitError;
use nom::error::ErrorKind;

fn is_space(c: char) -> bool {
    c == ' '
}

#[test]
fn found_divides_the_span_there() {
    let carrier = "say hello";
    let span = Span::new(carrier, 4, 9);
    let result = span.split_found(Some(2), Mode::Streaming, None);
    assert!(result == Ok((Span::new(carrier, 6, 9), Span::new(carrier, 4, 6))));
    let result = span.split_found(Some(2), Mode::Complete, Some(ErrorKind::Alpha));
    assert!(result == Ok((Span::new(carrier, 6, 9), Span::new(carrier, 4, 6))));
}

#[test]
fn found_at_zero_is_taken_empty_or_refused() {
    let carrier = "say hello";
    let span = Span::new(carrier, 4, 9);
    let result = span.split_found(Some(0), Mode::Streaming, None);
    assert!(result == Ok((Span::new(carrier, 4, 9), Span::new(carrier, 4, 4))));
    let result = span.split_found(Some(0), Mode::Complete, None);
    assert!(result == Ok((Span::new(carrier, 4, 9), Span::new(carrier, 4, 4))));
    let result = span.split_found(Some(0), Mode::Streaming, Some(ErrorKind::Digit));
    assert!(result == Err(SplitError::Error(span, ErrorKind::Digit)));
    let result = span.split_found(Some(0), Mode::Complete, Some(ErrorKind::Digit));
    assert!(result == Err(SplitError::Error(span, ErrorKind::Digit)));
}

#[test]
fn nothing_found_while_streaming_asks_for_one_more() {
    let span = Span::new("say hello", 4, 9);
    let result = span.split_found(None, Mode::Streaming, None);
    assert!(result == Err(SplitError::Incomplete(Needed::Size(1))));
    let result = span.split_found(None, Mode::Streaming, Some(ErrorKind::Alpha));
    assert!(result == Err(SplitError::Incomplete(Needed::Size(1))));
}

#[test]
fn nothing_found_in_complete_mode_takes_all() {
    let carrier = "say hello";
    let span = Span::new(carrier, 4, 9);
    let result = span.split_found(None, Mode::Complete, None);
    assert!(result == Ok((Span::new(carrier, 9, 9), Span::new(carrier, 4, 9))));
    let result = span.split_found(None, Mode::Complete, Some(ErrorKind::Alpha));
    assert!(result == Ok((Span::new(carrier, 9, 9), Span::new(carrier, 4, 9))));
    let stale = Span::new(carrier, 4, 40);
    let result = stale.split_found(None, Mode::Complete, None);
    assert!(result == Ok((Span::new(carrier, 9, 40), Span::new(carrier, 4, 9))));
}

#[test]
fn nothing_found_on_empty_span_in_complete_mode() {
    let carrier = "say hello";
    let empty = Span::new(carrier, 4, 4);
    let result = empty.split_found(None, Mode::Complete, None);
    assert!(result == Ok((Span::new(carrier, 4, 4), Span::new(carrier, 4, 4))));
    let result = empty.split_found(None, Mode::Complete, Some(ErrorKind::Alpha));
    assert!(result == Err(SplitError::Error(empty, ErrorKind::Alpha)));
}

#[test]
fn split_at_position_stops_before_the_first_match() {
    let carrier = "say hello";
    let span = Span::from(carrier);
    let result = span.split_at_position(is_space);
    assert!(result == Ok((Span::new(carrier, 3, 9), Span::new(carrier, 0, 3))));
    let word = Span::new(carrier, 4, 9);
    let result = word.split_at_position(is_space);
    assert!(result == Err(SplitError::Incomplete(Needed::Size(1))));
    let from_space = Span::new(carrier, 3, 9);
    let result = from_space.split_at_position(is_space);
    assert!(result == Ok((Span::new(carrier, 3, 9), Span::new(carrier, 3, 3))));
}

#[test]
fn split_at_position_complete_takes_all_without_a_match() {
    let carrier = "say hello";
    let span = Span::from(carrier);
    let result = span.split_at_position_complete(is_space);
    assert!(result == Ok((Span::new(carrier, 3, 9), Span::new(carrier, 0, 3))));
    let word = Span::new(carrier, 4, 9);
    let result = word.split_at_position_complete(is_space);
    assert!(result == Ok((Span::new(carrier, 9, 9), Span::new(carrier, 4, 9))));
    let empty = Span::end(carrier);
    let result = empty.split_at_position_complete(is_space);
    assert!(result == Ok((Span::new(carrier, 9, 9), Span::new(carrier, 9, 9))));
}

#[test]
fn split_at_position1_refuses_an_empty_first_part() {
    let carrier = "say hello";
    let span = Span::from(carrier);
    let result = span.split_at_position1(is_space, ErrorKind::Space);
    assert!(result == Ok((Span::new(carrier, 3, 9), Span::new(carrier, 0, 3))));
    let from_space = Span::new(carrier, 3, 9);
    let result = from_space.split_at_position1(is_space, ErrorKind::Space);
    assert!(result == Err(SplitError::Error(from_space, ErrorKind::Space)));
    let word = Span::new(carrier, 4, 9);
    let result = word.split_at_position1(is_space, ErrorKind::Space);
    assert!(result == Err(SplitError::Incomplete(Needed::Size(1))));
}

#[test]
fn split_at_position1_complete_takes_all_or_refuses() {
    let carrier = "say hello";
    let span = Span::from(carrier);
    let result = span.split_at_position1_complete(is_space, ErrorKind::Space);
    assert!(result == Ok((Span::new(carrier, 3, 9), Span::new(carrier, 0, 3))));
    let from_space = Span::new(carrier, 3, 9);
    let result = from_space.split_at_position1_complete(is_space, ErrorKind::Space);
    assert!(result == Err(SplitError::Error(from_space, ErrorKind::Space)));
    let word = Span::new(carrier, 4, 9);
    let result = word.split_at_position1_complete(is_space, ErrorKind::Space);
    assert!(result == Ok((Span::new(carrier, 9, 9), Span::new(carrier, 4, 9))));
    let empty = Span::new(carrier, 9, 9);
    let result = empty.split_at_position1_complete(is_space, ErrorKind::Space);
    assert!(result == Err(SplitError::Error(empty, ErrorKind::Space)));
}

#[test]
fn split_with_a_mode_given_by_the_caller() {
    let carrier = "say hello";
    let word = Span::new(carrier, 4, 9);
    let result = word.split_at_position_with(is_space, Mode::Streaming, None);
    assert!(result == Err(SplitError::Incomplete(Needed::Size(1))));
    let result = word.split_at_position_with(is_space, Mode::Complete, None);
    assert!(result == Ok((Span::new(carrier, 9, 9), Span::new(carrier, 4, 9))));
    let from_space = Span::new(carrier, 3, 9);
    let result = from_space.split_at_position_with(is_space, Mode::Complete, None);
    assert!(result == Ok((Span::new(carrier, 3, 9), Span::new(carrier, 3, 3))));
    let result =
        from_space.split_at_position_with(is_space, Mode::Complete, Some(ErrorKind::Many1));
    assert!(result == Err(SplitError::Error(from_space, ErrorKind::Many1)));
}

#[test]
fn splits_of_text_fall_on_character_boundaries() {
    let carrier = "\u{e9}t\u{e9} ici";
    let span = Span::from(carrier);
    match span.split_at_position1_complete(is_space, ErrorKind::Alpha) {
        Ok((rest, taken)) => {
            assert_eq!(taken.range(), 0..5);
            assert_eq!(taken.as_inner(), "\u{e9}t\u{e9}");
            assert_eq!(rest.as_inner(), " ici");
            assert!(rest.is_aligned());
            assert!(taken.is_aligned());
        }
        Err(_) => panic!("the word was not taken"),
    }
}

#[test]
fn splits_of_bytes() {
    let carrier: &[u8] = b"key=value";
    let span = Span::from(carrier);
    let result = span.split_at_position1(|b| b == b'=', ErrorKind::IsNot);
    assert!(result == Ok((Span::new(carrier, 3, 9), Span::new(carrier, 0, 3))));
    let value = Span::new(carrier, 4, 9);
    let result = value.split_at_position(|b| b == b'=');
    assert!(result == Err(SplitError::Incomplete(Needed::Size(1))));
    let result = value.split_at_position1_complete(|b| b == b'=', ErrorKind::IsNot);
    assert!(result == Ok((Span::new(carrier, 9, 9), Span::new(carrier, 4, 9))));
}
