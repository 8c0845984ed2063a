//! Text as a carrier: the units are the bytes of its UTF-8 encoding, the items its
//! characters, and the cuts its character boundaries.

use crate::carrier::all_fail;
use crate::carrier::callable_on;
use crate::carrier::first_holds;
use crate::carrier::prefix_comparison;
use crate::carrier::Carrier;
use crate::carrier::Comparison;
use crate::carrier::Needed;
use std::ops::Range;
use vstd::prelude::*;
use vstd::string::StringSliceAdditionalSpecFns;
use vstd::utf8::*;

verus! {

/// What nom's comparison of two texts gives when it ignores case: it sets the characters of
/// both through Unicode's lower-case mapping, which is too long to write out here.
pub uninterp spec fn caseless_text_comparison(content: Seq<char>, literal: Seq<char>) -> Comparison;

/// nom's `InputLength::input_len` on a text: its length in bytes.
#[verifier::external_body]
fn str_input_len(text: &str) -> (n: usize)
    ensures
        n == text.spec_bytes().len(),
{
    nom::InputLength::input_len(&text)
}

/// nom's `Slice::slice` on a text, which indexes it by the byte range: the text whose bytes
/// are those from `range.start` up to `range.end`. A range that is reversed, reaches past the
/// end or does not lie on character boundaries is left out.
#[verifier::external_body]
fn str_slice<'a>(text: &'a str, range: Range<usize>) -> (part: &'a str)
    requires
        range.start <= range.end <= text.spec_bytes().len(),
        is_char_boundary(text.spec_bytes(), range.start as int),
        is_char_boundary(text.spec_bytes(), range.end as int),
    ensures
        part.spec_bytes() == text.spec_bytes().subrange(range.start as int, range.end as int),
{
    nom::Slice::slice(&text, range)
}

/// nom's `InputIter::position` on a text: it calls the predicate on the characters in order
/// and stops at the first `true`, returning the byte offset at which that character starts;
/// `None` where every answer was `false`. The characters before the offset are those that the
/// bytes before it encode.
#[verifier::external_body]
fn str_position<P: Fn(char) -> bool>(text: &str, predicate: P) -> (found: Option<usize>)
    requires
        callable_on(text@, predicate),
    ensures
        match found {
            Some(at) => {
                &&& at < text.spec_bytes().len()
                &&& is_char_boundary(text.spec_bytes(), at as int)
                &&& all_fail(decode_utf8(text.spec_bytes().subrange(0, at as int)), predicate)
                &&& first_holds(
                    decode_utf8(
                        text.spec_bytes().subrange(at as int, text.spec_bytes().len() as int),
                    ),
                    predicate,
                )
            },
            None => all_fail(text@, predicate),
        },
{
    nom::InputIter::position(&text, predicate)
}

/// nom's `InputIter::iter_elements` on a text, collected: its characters in order.
#[verifier::external_body]
fn str_iter_elements(text: &str) -> (elements: Vec<char>)
    ensures
        elements@ == text@,
{
    nom::InputIter::iter_elements(&text).collect()
}

/// nom's `InputIter::iter_indices` on a text, collected: each character with the byte offset
/// at which it starts, a character boundary before which lie the bytes of exactly the
/// characters before it.
#[verifier::external_body]
fn str_iter_indices(text: &str) -> (indexed: Vec<(usize, char)>)
    ensures
        indexed@.len() == text@.len(),
        forall|k: int|
            0 <= k < text@.len() ==> {
                &&& (#[trigger] indexed@[k]).0 < text.spec_bytes().len()
                &&& is_char_boundary(text.spec_bytes(), indexed@[k].0 as int)
                &&& decode_utf8(text.spec_bytes().subrange(0, indexed@[k].0 as int)).len() == k
                &&& indexed@[k].1 == text@[k]
            },
{
    nom::InputIter::iter_indices(&text).collect()
}

/// nom's `InputIter::slice_index` on a text: the byte offset at which the character of number
/// `count` starts, or the length in bytes where the text has exactly `count` characters; with
/// fewer characters, `Unknown`.
#[verifier::external_body]
fn str_slice_index(text: &str, count: usize) -> (index: Result<usize, Needed>)
    ensures
        match index {
            Ok(at) => {
                &&& count <= text@.len()
                &&& at <= text.spec_bytes().len()
                &&& is_char_boundary(text.spec_bytes(), at as int)
                &&& decode_utf8(text.spec_bytes().subrange(0, at as int)).len() == count
            },
            Err(needed) => text@.len() < count && needed == Needed::Unknown,
        },
{
    match nom::InputIter::slice_index(&text, count) {
        Ok(at) => Ok(at),
        Err(nom::Needed::Unknown) => Err(Needed::Unknown),
        Err(nom::Needed::Size(size)) => Err(Needed::Size(size.get())),
    }
}

/// nom's `Compare::compare` of a text with another, which compares their bytes: it looks for
/// the first index at which both have a byte and the bytes differ; without one, the longer
/// decides.
#[verifier::external_body]
fn str_compare(text: &str, literal: &str) -> (comparison: Comparison)
    ensures
        comparison == prefix_comparison(text.spec_bytes(), literal.spec_bytes()),
{
    match nom::Compare::compare(&text, literal) {
        nom::CompareResult::Ok => Comparison::Match,
        nom::CompareResult::Incomplete => Comparison::NeedsMore,
        nom::CompareResult::Error => Comparison::NoMatch,
    }
}

/// nom's `Compare::compare_no_case` of a text with another: a function of the characters of
/// both, known here by name only.
#[verifier::external_body]
fn str_compare_no_case(text: &str, literal: &str) -> (comparison: Comparison)
    ensures
        comparison == caseless_text_comparison(text@, literal@),
{
    match nom::Compare::compare_no_case(&text, literal) {
        nom::CompareResult::Ok => Comparison::Match,
        nom::CompareResult::Incomplete => Comparison::NeedsMore,
        nom::CompareResult::Error => Comparison::NoMatch,
    }
}

/// The bytes of a text decode to its characters.
pub proof fn lemma_text_decodes(text: &str)
    ensures
        valid_utf8(text.spec_bytes()),
        decode_utf8(text.spec_bytes()) == text@,
{
    encode_utf8_valid_utf8(text@);
    encode_utf8_decode_utf8(text@);
}

/// In valid UTF-8, the part between two character boundaries is valid UTF-8, and its character
/// boundaries are those of the whole.
pub proof fn lemma_boundaries_of_part(bytes: Seq<u8>, low: int, high: int, at: int)
    requires
        valid_utf8(bytes),
        0 <= low <= high <= bytes.len(),
        is_char_boundary(bytes, low),
        is_char_boundary(bytes, high),
        0 <= at <= high - low,
    ensures
        valid_utf8(bytes.subrange(low, high)),
        is_char_boundary(bytes.subrange(low, high), at) == is_char_boundary(bytes, low + at),
{
    let tail = bytes.subrange(low, bytes.len() as int);
    let part = bytes.subrange(low, high);
    valid_utf8_split(bytes, low);
    assert(is_char_boundary(tail, high - low)) by {
        if high == bytes.len() {
            is_char_boundary_start_end_of_seq(tail);
        } else {
            is_char_boundary_iff_not_is_continuation_byte(bytes, high);
            is_char_boundary_iff_not_is_continuation_byte(tail, high - low);
        }
    }
    valid_utf8_split(tail, high - low);
    assert(tail.subrange(0, high - low) =~= part);
    if at == high - low {
        is_char_boundary_start_end_of_seq(part);
    } else {
        is_char_boundary_iff_not_is_continuation_byte(part, at);
        is_char_boundary_iff_not_is_continuation_byte(bytes, low + at);
    }
}

/// In text of ASCII characters only, offsets count characters: the text can be divided at every
/// offset up to its length, and the part between two offsets holds the characters between
/// them.
pub proof fn lemma_ascii_offsets_count_characters(text: Seq<char>, low: int, high: int)
    requires
        is_ascii_chars(text),
        0 <= low <= high <= text.len(),
    ensures
        encode_utf8(text).len() == text.len(),
        is_char_boundary(encode_utf8(text), low),
        is_char_boundary(encode_utf8(text), high),
        decode_utf8(encode_utf8(text).subrange(low, high)) == text.subrange(low, high),
{
    let bytes = encode_utf8(text);
    let part = text.subrange(low, high);
    is_ascii_chars_encode_utf8(text);
    is_ascii_chars_encode_utf8(part);
    encode_utf8_valid_utf8(text);
    is_char_boundary_start_end_of_seq(bytes);
    if low < bytes.len() {
        is_char_boundary_iff_is_leading_byte(bytes, low);
    }
    if high < bytes.len() {
        is_char_boundary_iff_is_leading_byte(bytes, high);
    }
    assert(encode_utf8(part) =~= bytes.subrange(low, high));
    encode_utf8_decode_utf8(part);
}

/// The encoding of two runs of characters, one after the other, is the encoding of the first
/// followed by that of the second.
pub proof fn lemma_encoding_of_concatenation(first: Seq<char>, second: Seq<char>)
    ensures
        encode_utf8(first + second) == encode_utf8(first) + encode_utf8(second),
    decreases first.len(),
{
    if first.len() > 0 {
        assert((first + second).drop_first() =~= first.drop_first() + second);
        lemma_encoding_of_concatenation(first.drop_first(), second);
    }
}

/// The encoding of characters starts with the encoding of others exactly where the characters
/// start with the others: no character's encoding is the start of another's.
pub proof fn lemma_encoded_prefix(shorter: Seq<char>, longer: Seq<char>)
    ensures
        encode_utf8(shorter).is_prefix_of(encode_utf8(longer)) <==> shorter.is_prefix_of(longer),
    decreases shorter.len(),
{
    let short_bytes = encode_utf8(shorter);
    if shorter.is_prefix_of(longer) {
        let rest = longer.skip(shorter.len() as int);
        assert(longer =~= shorter + rest);
        lemma_encoding_of_concatenation(shorter, rest);
    }
    if short_bytes.is_prefix_of(encode_utf8(longer)) && shorter.len() > 0 {
        // Both encodings start with the same bytes, so with the same character: its leading
        // byte fixes how many bytes it takes, and those bytes fix the character.
        encode_utf8_first_scalar(shorter);
        encode_utf8_first_scalar(longer);
        char_u32_cast(shorter[0], shorter[0] as u32);
        char_u32_cast(longer[0], longer[0] as u32);
        assert(shorter[0] == longer[0]);
        // What follows the first character is again a prefix.
        let width = length_of_first_scalar(short_bytes);
        assert(encode_utf8(shorter.drop_first()) =~= short_bytes.subrange(
            width,
            short_bytes.len() as int,
        ));
        lemma_encoded_prefix(shorter.drop_first(), longer.drop_first());
        assert(shorter =~= longer.subrange(0, shorter.len() as int)) by {
            assert forall|i: int| 0 <= i < shorter.len() implies shorter[i] == longer[i] by {
                if i > 0 {
                    assert(shorter.drop_first()[i - 1] == longer.drop_first().subrange(
                        0,
                        shorter.len() - 1,
                    )[i - 1]);
                }
            }
        }
    }
}

/// Comparing two texts byte by byte is comparing them character by character.
pub proof fn lemma_text_comparison_is_by_characters(content: Seq<u8>, literal: Seq<u8>)
    requires
        valid_utf8(content),
        valid_utf8(literal),
    ensures
        prefix_comparison(content, literal) == prefix_comparison(
            decode_utf8(content),
            decode_utf8(literal),
        ),
{
    decode_utf8_encode_utf8(content);
    decode_utf8_encode_utf8(literal);
    lemma_encoded_prefix(decode_utf8(literal), decode_utf8(content));
    lemma_encoded_prefix(decode_utf8(content), decode_utf8(literal));
}

impl<'a> Carrier for &'a str {
    type Unit = u8;

    type Item = char;

    open spec fn units(&self) -> Seq<u8> {
        self.spec_bytes()
    }

    open spec fn is_cut(units: Seq<u8>, at: int) -> bool {
        is_char_boundary(units, at)
    }

    open spec fn items(units: Seq<u8>) -> Seq<char> {
        decode_utf8(units)
    }

    open spec fn caseless_comparison(content: Seq<u8>, literal: Seq<u8>) -> Comparison {
        caseless_text_comparison(decode_utf8(content), decode_utf8(literal))
    }

    open spec fn shortfall(units: Seq<u8>, count: int) -> Needed {
        Needed::Unknown
    }

    proof fn lemma_ends_are_cuts(&self) {
        lemma_text_decodes(*self);
        is_char_boundary_start_end_of_seq(self.spec_bytes());
    }

    proof fn lemma_cuts_of_part(&self, low: int, high: int, at: int) {
        lemma_text_decodes(*self);
        lemma_boundaries_of_part(self.spec_bytes(), low, high, at);
    }

    proof fn lemma_items_of_parts(&self, low: int, high: int, at: int) {
        lemma_text_decodes(*self);
        lemma_boundaries_of_part(self.spec_bytes(), low, high, at);
        decode_utf8_split(self.spec_bytes().subrange(low, high), at);
    }

    fn input_len(&self) -> (n: usize) {
        str_input_len(*self)
    }

    fn is_boundary(&self, at: usize) -> (b: bool) {
        proof {
            lemma_text_decodes(*self);
        }
        self.is_char_boundary(at)
    }

    fn slice(&self, range: Range<usize>) -> (part: Self) {
        str_slice(*self, range)
    }

    fn position<P: Fn(char) -> bool>(&self, predicate: P) -> (found: Option<usize>) {
        proof {
            lemma_text_decodes(*self);
        }
        str_position(*self, predicate)
    }

    fn iter_elements(&self) -> (elements: Vec<char>) {
        proof {
            lemma_text_decodes(*self);
        }
        str_iter_elements(*self)
    }

    fn iter_indices(&self) -> (indexed: Vec<(usize, char)>) {
        proof {
            lemma_text_decodes(*self);
        }
        str_iter_indices(*self)
    }

    fn slice_index(&self, count: usize) -> (index: Result<usize, Needed>) {
        proof {
            lemma_text_decodes(*self);
        }
        str_slice_index(*self, count)
    }

    fn compare(&self, literal: Self) -> (comparison: Comparison) {
        str_compare(*self, literal)
    }

    fn compare_no_case(&self, literal: Self) -> (comparison: Comparison) {
        proof {
            lemma_text_decodes(*self);
            lemma_text_decodes(literal);
        }
        str_compare_no_case(*self, literal)
    }
}

} // verus!
