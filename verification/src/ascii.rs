//! Byte classes of the source language and facts about ASCII in UTF-8 text.

use vstd::prelude::*;
use vstd::utf8::*;

verus! {

/// Byte value of the space character.
pub const SPACE: u8 = 0x20;

/// Byte value of the horizontal tab.
pub const TAB: u8 = 0x09;

/// Byte value of the plus sign.
pub const PLUS_SIGN: u8 = 0x2b;

/// Byte value of the minus sign.
pub const MINUS_SIGN: u8 = 0x2d;

/// Byte value of the digit zero; the other digits follow it in order.
pub const DIGIT_ZERO: u8 = 0x30;

/// Byte value of the digit nine.
pub const DIGIT_NINE: u8 = 0x39;

/// The bytes that separate tokens without being one: space and tab.
pub open spec fn is_blank(byte: u8) -> bool {
    byte == SPACE || byte == TAB
}

/// The ASCII decimal digits.
pub open spec fn is_digit(byte: u8) -> bool {
    DIGIT_ZERO <= byte <= DIGIT_NINE
}

/// The bytes below 0x80, each of which is a whole character in UTF-8.
pub open spec fn is_ascii_byte(byte: u8) -> bool {
    byte < 0x80
}

/// Every byte of `bytes` in `from..to` is ASCII.
pub open spec fn all_ascii(bytes: Seq<u8>, from: int, to: int) -> bool {
    forall|i: int| from <= i < to ==> is_ascii_byte(#[trigger] bytes[i])
}

/// Every byte of `bytes` is a decimal digit.
pub open spec fn all_digits(bytes: Seq<u8>) -> bool {
    forall|i: int| 0 <= i < bytes.len() ==> is_digit(#[trigger] bytes[i])
}

/// Tells whether `byte` is a space or a tab.
pub fn byte_is_blank(byte: u8) -> (r: bool)
    ensures
        r == is_blank(byte),
{
    byte == SPACE || byte == TAB
}

/// Tells whether `byte` is a decimal digit.
pub fn byte_is_digit(byte: u8) -> (r: bool)
    ensures
        r == is_digit(byte),
{
    DIGIT_ZERO <= byte && byte <= DIGIT_NINE
}

/// In well-formed UTF-8 a position that only ASCII bytes precede starts a
/// character (or is the end of the text).
pub proof fn lemma_ascii_prefix_is_char_boundary(bytes: Seq<u8>, index: int)
    requires
        valid_utf8(bytes),
        0 <= index <= bytes.len(),
        all_ascii(bytes, 0, index),
    ensures
        is_char_boundary(bytes, index),
    decreases index,
{
    if index > 0 {
        assert(is_ascii_byte(bytes[0]));
        let tail = pop_first_scalar(bytes);
        assert(tail =~= bytes.subrange(1, bytes.len() as int));
        assert forall|i: int| 0 <= i < index - 1 implies is_ascii_byte(#[trigger] tail[i]) by {
            assert(is_ascii_byte(bytes[i + 1]));
        }
        lemma_ascii_prefix_is_char_boundary(tail, index - 1);
    }
}

} // verus!
