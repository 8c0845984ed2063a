//! What the two carriers answer: text, counted in bytes and seen as characters, and byte
//! buffers.

use input_span::Carrier;
use input_span::Comparison;
use input_span::Needed;
use input_span::Span;

#[test]
fn text_length_counts_bytes() {
    let span = Span::from("h\u{e9}llo");
    assert_eq!(span.range(), 0..6);
    assert_eq!(span.input_len(), 6);
    assert_eq!(Span::end("h\u{e9}llo").range(), 6..6);
}

#[test]
fn text_content_is_cut_at_byte_offsets() {
    let carrier = "h\u{e9}llo";
    assert_eq!(Span::new(carrier, 1, 3).as_inner(), "\u{e9}");
    assert_eq!(Span::new(carrier, 3, 6).as_inner(), "llo");
    assert_eq!(Span::new(carrier, 0, 1).as_inner(), "h");
}

#[test]
fn text_alignment_is_told_before_the_content_is_made() {
    let carrier = "h\u{e9}llo";
    assert!(Span::new(carrier, 1, 3).is_aligned());
    assert!(!Span::new(carrier, 2, 3).is_aligned());
    assert!(!Span::new(carrier, 1, 2).is_aligned());
    assert!(Span::new(carrier, 0, 60).is_aligned());
    assert!(Span::new(carrier, 60, 70).is_aligned());
    assert!(carrier.is_boundary(1));
    assert!(!carrier.is_boundary(2));
    assert!(carrier.is_boundary(6));
    assert!(!carrier.is_boundary(7));
}

#[test]
fn text_position_is_a_byte_offset_in_the_content() {
    let carrier = "h\u{e9}llo w\u{f6}rld";
    let span = Span::from(carrier);
    assert_eq!(span.position(|c| c == 'l'), Some(3));
    assert_eq!(span.position(|c| c == ' '), Some(6));
    assert_eq!(span.position(|c| c == '\u{f6}'), Some(8));
    assert_eq!(span.position(|c| c == 'z'), None);
    let later = Span::new(carrier, 7, 13);
    assert_eq!(later.as_inner(), "w\u{f6}rld");
    assert_eq!(later.position(|c| c == 'r'), Some(3));
    assert_eq!(later.position(|c| c == 'h'), None);
}

#[test]
fn text_elements_are_characters() {
    let span = Span::new("h\u{e9}llo", 1, 6);
    assert_eq!(span.iter_elements(), vec!['\u{e9}', 'l', 'l', 'o']);
    assert_eq!(span.iter_indices(), vec![(0, '\u{e9}'), (2, 'l'), (3, 'l'), (4, 'o')]);
}

#[test]
fn text_slice_index_counts_characters() {
    let span = Span::from("h\u{e9}llo");
    assert_eq!(span.slice_index(0), Ok(0));
    assert_eq!(span.slice_index(2), Ok(3));
    assert_eq!(span.slice_index(5), Ok(6));
    assert_eq!(span.slice_index(6), Err(Needed::Unknown));
}

#[test]
fn text_compare_is_a_prefix_test() {
    let span = Span::new("say hello", 4, 9);
    assert_eq!(span.compare("hello"), Comparison::Match);
    assert_eq!(span.compare("hel"), Comparison::Match);
    assert_eq!(span.compare("hello world"), Comparison::NeedsMore);
    assert_eq!(span.compare("help"), Comparison::NoMatch);
    assert_eq!(span.compare("Hello"), Comparison::NoMatch);
}

#[test]
fn text_compare_no_case_ignores_case() {
    let span = Span::new("say HeLLo", 4, 9);
    assert_eq!(span.compare_no_case("hello"), Comparison::Match);
    assert_eq!(span.compare_no_case("HELLO WORLD"), Comparison::NeedsMore);
    assert_eq!(span.compare_no_case("help"), Comparison::NoMatch);
    assert_eq!(Span::from("\u{c9}t\u{e9}").compare_no_case("\u{e9}T\u{c9}"), Comparison::Match);
}

#[test]
fn bytes_length_and_content() {
    let carrier: &[u8] = b"thinghello";
    let span = Span::from(carrier);
    assert_eq!(span.range(), 0..10);
    assert_eq!(span.input_len(), 10);
    let part = Span::new(carrier, 5, 10);
    assert_eq!(part.as_inner(), b"hello");
    assert_eq!(Span::new(carrier, 5, 99).as_inner(), b"hello");
    assert!(Span::new(carrier, 3, 4).is_aligned());
    assert!(carrier.is_boundary(10));
    assert!(!carrier.is_boundary(11));
}

#[test]
fn bytes_position_and_elements() {
    let carrier: &[u8] = b"thinghello";
    let span = Span::new(carrier, 5, 10);
    assert_eq!(span.position(|b| b == b'l'), Some(2));
    assert_eq!(span.position(|b| b == b't'), None);
    assert_eq!(span.iter_elements(), vec![b'h', b'e', b'l', b'l', b'o']);
    assert_eq!(
        span.iter_indices(),
        vec![(0, b'h'), (1, b'e'), (2, b'l'), (3, b'l'), (4, b'o')]
    );
}

#[test]
fn bytes_slice_index_says_how_many_are_missing() {
    let carrier: &[u8] = b"hello";
    let span = Span::from(carrier);
    assert_eq!(span.slice_index(0), Ok(0));
    assert_eq!(span.slice_index(5), Ok(5));
    assert_eq!(span.slice_index(9), Err(Needed::Size(4)));
}

#[test]
fn bytes_compare_with_and_without_case() {
    let carrier: &[u8] = b"say HeLLo";
    let span = Span::new(carrier, 4, 9);
    assert_eq!(span.compare(b"HeLLo"), Comparison::Match);
    assert_eq!(span.compare(b"HeL"), Comparison::Match);
    assert_eq!(span.compare(b"HeLLo!"), Comparison::NeedsMore);
    assert_eq!(span.compare(b"hello"), Comparison::NoMatch);
    assert_eq!(span.compare_no_case(b"hello"), Comparison::Match);
    assert_eq!(span.compare_no_case(b"HELLO WORLD"), Comparison::NeedsMore);
    assert_eq!(span.compare_no_case(b"help"), Comparison::NoMatch);
    let marks: &[u8] = b"@[`{";
    assert_eq!(Span::from(marks).compare_no_case(b"@[`{"), Comparison::Match);
    assert_eq!(Span::from(marks).compare_no_case(b"`{@["), Comparison::NoMatch);
}

#[test]
fn needed_of_zero_is_unknown() {
    assert_eq!(Needed::new(0), Needed::Unknown);
    assert_eq!(Needed::new(1), Needed::Size(1));
    assert_eq!(Needed::new(7), Needed::Size(7));
}
