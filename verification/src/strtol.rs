//! Scanning a decimal integer off the front of a text.

use crate::ascii::{all_digits, byte_is_digit, is_digit, lemma_ascii_prefix_is_char_boundary, DIGIT_ZERO};
use std::num::ParseIntError;
use vstd::prelude::*;
use vstd::string::*;
use vstd::utf8::*;

verus! {

/// `core::num::ParseIntError`, the error of the standard integer parser.
/// Nothing is known of a value of it; it is carried to the caller as it is.
#[verifier::external_type_specification]
#[verifier::external_body]
pub struct ExParseIntError(ParseIntError);

/// End of the longest run of decimal digits that starts at `from`.
pub open spec fn digit_run_end(bytes: Seq<u8>, from: int) -> int
    decreases bytes.len() - from,
{
    if 0 <= from < bytes.len() && is_digit(bytes[from]) {
        digit_run_end(bytes, from + 1)
    } else {
        from
    }
}

/// The number that a run of decimal digits denotes, most significant digit
/// first; the empty run denotes zero.
pub open spec fn decimal_value(digits: Seq<u8>) -> nat
    decreases digits.len(),
{
    if digits.len() == 0 {
        0
    } else {
        decimal_value(digits.drop_last()) * 10 + (digits.last() - DIGIT_ZERO) as nat
    }
}

/// A run of digits stands for an `i32` when it has a digit and the number it
/// denotes is at most `i32::MAX`.
pub open spec fn denotes_i32(digits: Seq<u8>) -> bool {
    digits.len() > 0 && decimal_value(digits) <= i32::MAX
}

/// The run that `digit_run_end` measures holds digits only and cannot be
/// extended.
pub proof fn lemma_digit_run_end(bytes: Seq<u8>, from: int)
    requires
        0 <= from <= bytes.len(),
    ensures
        from <= digit_run_end(bytes, from) <= bytes.len(),
        forall|i: int| from <= i < digit_run_end(bytes, from) ==> is_digit(#[trigger] bytes[i]),
        digit_run_end(bytes, from) < bytes.len() ==> !is_digit(
            bytes[digit_run_end(bytes, from)],
        ),
    decreases bytes.len() - from,
{
    if from < bytes.len() && is_digit(bytes[from]) {
        lemma_digit_run_end(bytes, from + 1);
    }
}

/// A run of digits that ends at a non-digit, or at the end of the text, is
/// the one `digit_run_end` measures.
pub proof fn lemma_digit_run_end_unique(bytes: Seq<u8>, from: int, end: int)
    requires
        0 <= from <= end <= bytes.len(),
        forall|i: int| from <= i < end ==> is_digit(#[trigger] bytes[i]),
        end < bytes.len() ==> !is_digit(bytes[end]),
    ensures
        digit_run_end(bytes, from) == end,
    decreases end - from,
{
    if from < end {
        assert(is_digit(bytes[from]));
        lemma_digit_run_end_unique(bytes, from + 1, end);
    }
}

/// Calls `str::parse::<i32>`. Of a text made of decimal digits only, the
/// standard parser returns the number it denotes when there is a digit and
/// the number fits in `i32`, and an error otherwise.
#[verifier::external_body]
fn parse_decimal(digits: &str) -> (parsed: Result<i32, ParseIntError>)
    requires
        all_digits(digits.spec_bytes()),
    ensures
        parsed is Ok <==> denotes_i32(digits.spec_bytes()),
        parsed matches Ok(value) ==> value == decimal_value(digits.spec_bytes()),
{
    digits.parse::<i32>()
}

/// The leading run of decimal digits of `bytes`.
pub open spec fn leading_digits(bytes: Seq<u8>) -> Seq<u8> {
    bytes.subrange(0, digit_run_end(bytes, 0))
}

/// Splits `text` after its leading run of decimal digits and parses the run.
///
/// On success the number and the text behind the run are returned. The call
/// fails exactly when the run is empty or denotes a number above `i32::MAX`.
pub fn str_to_fromstr(text: &str) -> (r: Result<(i32, &str), ParseIntError>)
    ensures
        r is Ok <==> denotes_i32(leading_digits(text.spec_bytes())),
        r matches Ok((value, rest)) ==> {
            &&& value == decimal_value(leading_digits(text.spec_bytes()))
            &&& rest.spec_bytes() == text.spec_bytes().skip(
                leading_digits(text.spec_bytes()).len() as int,
            )
        },
{
    broadcast use encode_utf8_valid_utf8;

    let bytes = text.as_bytes();
    let mut index: usize = 0;
    while index < bytes.len() && byte_is_digit(bytes[index])
        invariant
            index <= bytes@.len(),
            forall|i: int| 0 <= i < index ==> is_digit(#[trigger] bytes@[i]),
        decreases bytes@.len() - index,
    {
        index += 1;
    }
    proof {
        lemma_digit_run_end_unique(bytes@, 0, index as int);
        lemma_ascii_prefix_is_char_boundary(bytes@, index as int);
    }
    let (digit_part, rest) = text.split_at(index);
    match parse_decimal(digit_part) {
        Ok(value) => Ok((value, rest)),
        Err(error) => Err(error),
    }
}

} // verus!
