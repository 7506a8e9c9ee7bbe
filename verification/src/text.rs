//! Writing numbers and ASCII bytes into strings.

use crate::ascii::{all_digits, is_digit, DIGIT_ZERO, MINUS_SIGN};
use crate::strtol::decimal_value;
use vstd::prelude::*;

verus! {

/// `String::push` appends one character to the end of the string.
pub assume_specification[ String::push ](text: &mut String, ch: char)
    ensures
        final(text)@ == old(text)@.push(ch),
;

/// The characters that a sequence of ASCII bytes spells.
pub open spec fn ascii_text(bytes: Seq<u8>) -> Seq<char> {
    Seq::new(bytes.len(), |i: int| bytes[i] as char)
}

/// The decimal digits of `n`, most significant first, without leading zeros.
pub open spec fn decimal_digits(n: nat) -> Seq<u8>
    decreases n,
{
    if n < 10 {
        seq![(DIGIT_ZERO + n) as u8]
    } else {
        decimal_digits(n / 10).push((DIGIT_ZERO + n % 10) as u8)
    }
}

/// The decimal notation of `value`: a minus sign in front of the digits of a
/// negative number, the digits alone otherwise.
pub open spec fn signed_decimal(value: int) -> Seq<u8> {
    if value < 0 {
        seq![MINUS_SIGN] + decimal_digits((-value) as nat)
    } else {
        decimal_digits(value as nat)
    }
}

/// The lower-case hexadecimal digit of a value below sixteen.
pub open spec fn hex_digit(nibble: int) -> u8 {
    if nibble < 10 {
        (DIGIT_ZERO + nibble) as u8
    } else {
        (0x61 + nibble - 10) as u8
    }
}

/// A byte in lower-case hexadecimal: always two digits, the high one first,
/// so that a byte below sixteen starts with a zero.
pub open spec fn hex_pair(byte: u8) -> Seq<u8> {
    seq![hex_digit(byte as int / 16), hex_digit(byte as int % 16)]
}

/// `count` spaces.
pub open spec fn spaces(count: nat) -> Seq<char> {
    Seq::new(count, |i: int| ' ')
}

/// Decimal notation is made of digits, at least one of them, and denotes the
/// number it was made from.
pub proof fn lemma_decimal_digits_denote(n: nat)
    ensures
        decimal_digits(n).len() > 0,
        all_digits(decimal_digits(n)),
        decimal_value(decimal_digits(n)) == n,
    decreases n,
{
    let digits = decimal_digits(n);
    if n < 10 {
        assert(digits.drop_last() =~= Seq::<u8>::empty());
        assert(decimal_value(digits.drop_last()) == 0);
    } else {
        lemma_decimal_digits_denote(n / 10);
        assert(digits.drop_last() =~= decimal_digits(n / 10));
        assert forall|i: int| 0 <= i < digits.len() implies is_digit(#[trigger] digits[i]) by {
            if i < digits.len() - 1 {
                assert(digits[i] == decimal_digits(n / 10)[i]);
            }
        }
    }
}

/// The text of one ASCII byte pushed behind the text of the bytes before it
/// is the text of them all.
pub proof fn lemma_ascii_text_push(bytes: Seq<u8>, byte: u8)
    ensures
        ascii_text(bytes.push(byte)) == ascii_text(bytes).push(byte as char),
{
    assert(ascii_text(bytes.push(byte)) =~= ascii_text(bytes).push(byte as char));
}

/// The text of two runs of bytes, one behind the other, is the text of the
/// first followed by the text of the second.
pub proof fn lemma_ascii_text_concat(front: Seq<u8>, back: Seq<u8>)
    ensures
        ascii_text(front + back) == ascii_text(front) + ascii_text(back),
{
    assert(ascii_text(front + back) =~= ascii_text(front) + ascii_text(back));
}

/// Appends the character of one ASCII byte.
pub fn push_ascii(out: &mut String, byte: u8)
    ensures
        final(out)@ == old(out)@.push(byte as char),
{
    out.push(byte as char);
}

/// Appends the decimal notation of `n`.
pub fn push_decimal(out: &mut String, n: u64)
    ensures
        final(out)@ == old(out)@ + ascii_text(decimal_digits(n as nat)),
    decreases n,
{
    if n >= 10 {
        push_decimal(out, n / 10);
    }
    let digit: u8 = DIGIT_ZERO + (n % 10) as u8;
    proof {
        if n >= 10 {
            lemma_ascii_text_push(decimal_digits((n / 10) as nat), digit);
        }
        assert(ascii_text(seq![digit]) =~= seq![digit as char]);
    }
    push_ascii(out, digit);
    assert(out@ =~= old(out)@ + ascii_text(decimal_digits(n as nat)));
}

/// Appends the decimal notation of `value`, with a minus sign if it is
/// negative.
pub fn push_signed_decimal(out: &mut String, value: i32)
    ensures
        final(out)@ == old(out)@ + ascii_text(signed_decimal(value as int)),
{
    let wide: i64 = value as i64;
    if wide < 0 {
        push_ascii(out, MINUS_SIGN);
        push_decimal(out, (-wide) as u64);
        proof {
            lemma_ascii_text_concat(seq![MINUS_SIGN], decimal_digits((-value) as nat));
            assert(ascii_text(seq![MINUS_SIGN]) =~= seq![MINUS_SIGN as char]);
        }
        assert(out@ =~= old(out)@ + ascii_text(signed_decimal(value as int)));
    } else {
        push_decimal(out, wide as u64);
    }
}

/// The lower-case hexadecimal digit of `nibble`.
fn hex_digit_of(nibble: u8) -> (r: u8)
    requires
        nibble < 16,
    ensures
        r == hex_digit(nibble as int),
{
    if nibble < 10 {
        DIGIT_ZERO + nibble
    } else {
        0x61 + (nibble - 10)
    }
}

/// Appends `byte` in lower-case hexadecimal, as two digits.
pub fn push_hex_pair(out: &mut String, byte: u8)
    ensures
        final(out)@ == old(out)@ + ascii_text(hex_pair(byte)),
{
    let high: u8 = hex_digit_of(byte / 16);
    let low: u8 = hex_digit_of(byte % 16);
    push_ascii(out, high);
    push_ascii(out, low);
    assert(out@ =~= old(out)@ + ascii_text(hex_pair(byte)));
}

/// Appends `count` spaces.
pub fn push_spaces(out: &mut String, count: usize)
    ensures
        final(out)@ == old(out)@ + spaces(count as nat),
{
    let mut done: usize = 0;
    while done < count
        invariant
            done <= count,
            out@ == old(out)@ + spaces(done as nat),
        decreases count - done,
    {
        out.push(' ');
        done += 1;
        assert(out@ =~= old(out)@ + spaces(done as nat));
    }
}

} // verus!
