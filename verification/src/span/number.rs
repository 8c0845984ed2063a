//! Reading a span of text as a signed decimal number.

use super::Span;
use vstd::prelude::*;
use vstd::string::StringSliceAdditionalSpecFns;

verus! {

/// The byte is one of the ASCII digits `0` to `9`.
pub open spec fn is_digit(byte: u8) -> bool {
    0x30 <= byte <= 0x39
}

/// Every byte is an ASCII digit.
pub open spec fn all_digits(bytes: Seq<u8>) -> bool {
    forall|k: int| 0 <= k < bytes.len() ==> is_digit(#[trigger] bytes[k])
}

/// The number that decimal digits write, the most significant first.
pub open spec fn digits_value(digits: Seq<u8>) -> int
    decreases digits.len(),
{
    if digits.len() == 0 {
        0
    } else {
        10 * digits_value(digits.drop_last()) + (digits.last() - 0x30)
    }
}

/// The digits of a text that may start with a sign: what follows a leading `+` or `-`, or the
/// whole text where there is none.
pub open spec fn unsigned_part(text: Seq<u8>) -> Seq<u8> {
    if text.len() > 0 && (text[0] == 0x2d || text[0] == 0x2b) {
        text.skip(1)
    } else {
        text
    }
}

/// The number that a text writes in decimal: an optional `+` or `-`, then one digit or more
/// and nothing else. `None` where the text has another form, or writes a number that does not
/// fit.
pub open spec fn decimal_i64(text: Seq<u8>) -> Option<i64> {
    let digits = unsigned_part(text);
    let value = if text.len() > 0 && text[0] == 0x2d {
        -digits_value(digits)
    } else {
        digits_value(digits)
    };
    if digits.len() > 0 && all_digits(digits) && i64::MIN <= value <= i64::MAX {
        Some(value as i64)
    } else {
        None
    }
}

/// A prefix of digits writes no more than the digits do, and nothing negative.
proof fn lemma_digits_value_within(digits: Seq<u8>, k: int)
    requires
        all_digits(digits),
        0 <= k <= digits.len(),
    ensures
        0 <= digits_value(digits.subrange(0, k)) <= digits_value(digits),
    decreases digits.len(),
{
    if digits.len() > 0 {
        let shorter = digits.drop_last();
        lemma_digits_value_within(shorter, shorter.len() as int);
        if k == digits.len() {
            assert(digits.subrange(0, k) =~= digits);
        } else {
            assert(shorter.subrange(0, k) =~= digits.subrange(0, k));
            lemma_digits_value_within(shorter, k);
        }
    }
}

/// Reads bytes as a signed decimal number.
pub fn parse_decimal_i64(text: &[u8]) -> (value: Option<i64>)
    ensures
        value == decimal_i64(text@),
{
    let length: usize = text.len();
    if length == 0 {
        return None;
    }
    let negative: bool = text[0] == 0x2d;
    let first: usize = if negative || text[0] == 0x2b {
        1
    } else {
        0
    };
    if first == length {
        return None;
    }
    let ghost digits = unsigned_part(text@);
    let mut total: i64 = 0;
    let mut at: usize = first;
    while at < length
        invariant
            first <= at <= length == text@.len(),
            digits == text@.subrange(first as int, length as int),
            digits == unsigned_part(text@),
            negative == (text@[0] == 0x2d),
            all_digits(digits.subrange(0, at - first)),
            total == (if negative {
                -digits_value(digits.subrange(0, at - first))
            } else {
                digits_value(digits.subrange(0, at - first))
            }),
        decreases length - at,
    {
        let byte: u8 = text[at];
        if byte < 0x30 || byte > 0x39 {
            assert(!is_digit(digits[at - first]));
            return None;
        }
        let digit: i128 = (byte - 0x30) as i128;
        let wide: i128 = if negative {
            total as i128 * 10 - digit
        } else {
            total as i128 * 10 + digit
        };
        proof {
            let longer = digits.subrange(0, at + 1 - first);
            assert(longer.drop_last() =~= digits.subrange(0, at - first));
            if all_digits(digits) {
                lemma_digits_value_within(digits, at + 1 - first);
            }
        }
        if wide < i64::MIN as i128 || wide > i64::MAX as i128 {
            return None;
        }
        total = wide as i64;
        at += 1;
    }
    assert(digits.subrange(0, length - first) =~= digits);
    Some(total)
}

impl<'a> Span<&'a str> {
    /// The number that the content writes in decimal, where it writes one.
    pub fn try_value_i64(&self) -> (value: Option<i64>)
        requires
            self@.aligned(),
        ensures
            value == decimal_i64(self@.content()),
    {
        let content: &str = self.as_inner();
        parse_decimal_i64(content.as_bytes())
    }

    /// The number that the content writes in decimal. It is for content that a grammar has
    /// already found to be a number.
    pub fn value_i64(&self) -> (value: i64)
        requires
            self@.aligned(),
            decimal_i64(self@.content()) is Some,
        ensures
            Some(value) == decimal_i64(self@.content()),
    {
        self.try_value_i64().unwrap()
    }
}

} // verus!
