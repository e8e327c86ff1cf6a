//! Numbers in the scene language.

use vstd::prelude::*;
use crate::parser::{ByteClass, ParseError};
use crate::scalar::{Scalar, key_of_bits};

verus! {

/// What `nom::number::complete::double` makes of a text: the number of
/// bytes that it leaves unread and the bit pattern of the double that it
/// read, or, where it read none, whether it gave up for good.
pub uninterp spec fn double_prefix(input: Seq<u8>) -> Result<(int, int), bool>;

/// Reads a double from the start of a text with
/// `nom::number::complete::double`. The outcome is a function of the text.
/// On success nom hands back the unread rest, which is an end piece of the
/// text, and the double; on failure it says whether other parsers may still
/// be tried (an error) or not (a failure, which it reports when an exponent
/// mark is not followed by digits).
#[verifier::external_body]
fn nom_double(input: &[u8]) -> (out: Result<(usize, u64), bool>)
    ensures
        match out {
            Ok((rest, bits)) => double_prefix(input@) == Ok::<(int, int), bool>(
                (rest as int, bits as int),
            ) && rest <= input@.len(),
            Err(fatal) => double_prefix(input@) == Err::<(int, int), bool>(fatal),
        },
{
    match nom::number::complete::double::<&[u8], nom::error::Error<&[u8]>>(input) {
        Ok((rest, value)) => Ok((rest.len(), value.to_bits())),
        Err(nom::Err::Failure(_)) => Err(true),
        Err(_) => Err(false),
    }
}

/// What reading a double at a place of the input gives: the place behind
/// the number, and the number.
pub open spec fn double_at(input: Seq<u8>, at: usize) -> Result<(usize, Scalar), ParseError> {
    match double_prefix(input.subrange(at as int, input.len() as int)) {
        Ok((rest, bits)) => Ok(
            ((input.len() - rest) as usize, Scalar { key: key_of_bits(bits as u64) as i64 }),
        ),
        Err(fatal) => Err(
            if fatal {
                ParseError::Failure
            } else {
                ParseError::Error
            },
        ),
    }
}

/// Reads a double.
pub fn double(input: &[u8], at: usize) -> (out: Result<(usize, Scalar), ParseError>)
    requires
        at <= input@.len(),
    ensures
        out == double_at(input@, at),
        out matches Ok((end, value)) ==> at <= end <= input@.len(),
        out matches Err(e) ==> e != ParseError::Invalid,
{
    let length = input.len();
    let tail = &input[at..length];
    match nom_double(tail) {
        Ok((rest, bits)) => Ok((length - rest, Scalar::from_bits(bits))),
        Err(fatal) => {
            if fatal {
                Err(ParseError::Failure)
            } else {
                Err(ParseError::Error)
            }
        },
    }
}

/// The number that a run of decimal digits stands for.
pub open spec fn decimal_value(digits: Seq<u8>) -> int
    decreases digits.len(),
{
    if digits.len() == 0 {
        0
    } else {
        10 * decimal_value(digits.drop_last()) + (digits.last() - 0x30)
    }
}

/// The value of a run of digits never shrinks when a digit is added.
proof fn decimal_value_grows(digits: Seq<u8>, count: int)
    requires
        0 <= count <= digits.len(),
        forall|k: int| 0 <= k < digits.len() ==> ByteClass::Digit.holds(#[trigger] digits[k]),
    ensures
        0 <= decimal_value(digits.take(count)) <= decimal_value(digits),
    decreases digits.len() - count,
{
    if count < digits.len() {
        decimal_value_grows(digits, count + 1);
        assert(digits.take(count + 1).drop_last() == digits.take(count));
        decimal_value_is_natural(digits.take(count));
    } else {
        assert(digits.take(count) == digits);
        decimal_value_is_natural(digits);
    }
}

/// The value of a run of digits is not negative.
proof fn decimal_value_is_natural(digits: Seq<u8>)
    requires
        forall|k: int| 0 <= k < digits.len() ==> ByteClass::Digit.holds(#[trigger] digits[k]),
    ensures
        0 <= decimal_value(digits),
    decreases digits.len(),
{
    if digits.len() > 0 {
        assert forall|k: int| 0 <= k < digits.drop_last().len() implies ByteClass::Digit.holds(
            #[trigger] digits.drop_last()[k],
        ) by {
            assert(digits.drop_last()[k] == digits[k]);
        }
        decimal_value_is_natural(digits.drop_last());
    }
}

/// Reads the number that the digits between two places stand for. A number
/// above the largest 64-bit signed integer is invalid.
pub fn integer(input: &[u8], from: usize, to: usize) -> (out: Result<i64, ParseError>)
    requires
        from <= to <= input@.len(),
        forall|k: int| from <= k < to ==> ByteClass::Digit.holds(#[trigger] input@[k]),
    ensures
        match out {
            Ok(value) => value == decimal_value(input@.subrange(from as int, to as int)),
            Err(e) => e == ParseError::Invalid && decimal_value(
                input@.subrange(from as int, to as int),
            ) > i64::MAX,
        },
{
    let ghost digits = input@.subrange(from as int, to as int);
    let mut value: i64 = 0;
    let mut i = from;
    while i < to
        invariant
            from <= i <= to <= input@.len(),
            digits == input@.subrange(from as int, to as int),
            forall|k: int| from <= k < to ==> ByteClass::Digit.holds(#[trigger] input@[k]),
            forall|k: int| 0 <= k < digits.len() ==> ByteClass::Digit.holds(#[trigger] digits[k]),
            value == decimal_value(digits.take(i - from)),
            0 <= value,
        decreases to - i,
    {
        assert(ByteClass::Digit.holds(input@[i as int]));
        let digit: i64 = (input[i] - 0x30) as i64;
        proof {
            assert(digits[i - from] == input@[i as int]);
            assert(ByteClass::Digit.holds(digits[i - from]));
            assert(digits.take(i - from + 1).drop_last() == digits.take(i - from));
            assert(digits.take(i - from + 1).last() == digits[i - from]);
            decimal_value_grows(digits, i - from + 1);
        }
        if value > (i64::MAX - digit) / 10 {
            return Err(ParseError::Invalid);
        }
        value = value * 10 + digit;
        i = i + 1;
    }
    proof {
        assert(digits.take(to - from) == digits);
    }
    Ok(value)
}

} // verus!
