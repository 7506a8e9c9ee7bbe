//! What holds of lexing and compiling as a whole.

use crate::ascii::{all_digits, is_blank, is_digit};
use crate::compile::{outcome, Outcome};
use crate::grammar::{
    chain_instructions, chain_value, evaluate_from, is_literal_at, literal_at, terms_from,
    token_data,
};
use crate::instruction::{run, step, wrap32, Instruction};
use crate::lexer::{
    blank_run_end, lemma_blank_run_end, lemma_lexeme_after_blanks, lemma_lexeme_extent, lex,
    lex_from, lexeme_at, prepend_token, Lexeme, LexerError,
};
use crate::position::{column_of, lemma_same_line, line_of, position_at, Pointed, LINE_FEED};
use crate::strtol::{
    decimal_value, denotes_i32, digit_run_end, lemma_digit_run_end, lemma_digit_run_end_unique,
};
use crate::text::{ascii_text, decimal_digits, lemma_decimal_digits_denote};
use crate::token::Token;
use crate::token_stream::{is_lexing_of, TokenStream};
use vstd::prelude::*;

verus! {

/// A run of blanks that ends at a byte that is no blank, or at the end of
/// the source, is the one `blank_run_end` measures.
pub proof fn lemma_blank_run_end_unique(bytes: Seq<u8>, from: int, end: int)
    requires
        0 <= from <= end <= bytes.len(),
        forall|i: int| from <= i < end ==> is_blank(#[trigger] bytes[i]),
        end < bytes.len() ==> !is_blank(bytes[end]),
    ensures
        blank_run_end(bytes, from) == end,
    decreases end - from,
{
    if from < end {
        assert(is_blank(bytes[from]));
        lemma_blank_run_end_unique(bytes, from + 1, end);
    }
}

/// A number alone, with or without spaces and tabs in front of it, is lexed
/// as one token that holds the number and stands on line 1 behind the
/// blanks; the program for it loads exactly that number.
pub proof fn lemma_single_literal(blanks: Seq<u8>, digits: Seq<u8>)
    requires
        forall|i: int| 0 <= i < blanks.len() ==> is_blank(#[trigger] blanks[i]),
        all_digits(digits),
        denotes_i32(digits),
    ensures
        lex(blanks + digits) == Ok::<Seq<Pointed<Token>>, Lexeme>(
            seq![
                Pointed {
                    position: position_at(blanks + digits, blanks.len() as int),
                    data: Token::LiteralInt(decimal_value(digits) as i32),
                },
            ],
        ),
        line_of(blanks + digits, blanks.len() as int) == 1,
        column_of(blanks + digits, blanks.len() as int) == blanks.len() + 1,
        outcome(blanks + digits) == (Outcome::Program {
            instructions: seq![Instruction::MovImm(decimal_value(digits) as i32)],
        }),
{
    let bytes = blanks + digits;
    let start = blanks.len() as int;
    let end = bytes.len() as int;
    let number = Token::LiteralInt(decimal_value(digits) as i32);
    assert forall|i: int| 0 <= i < start implies is_blank(#[trigger] bytes[i]) by {
        assert(bytes[i] == blanks[i]);
    }
    assert forall|i: int| start <= i < end implies is_digit(#[trigger] bytes[i]) by {
        assert(bytes[i] == digits[i - start]);
    }
    assert(is_digit(bytes[start]));
    lemma_blank_run_end_unique(bytes, 0, start);
    lemma_digit_run_end_unique(bytes, start, end);
    assert(bytes.subrange(start, end) =~= digits);
    assert(lexeme_at(bytes, 0) == (Lexeme::Token { token: number, start, end }));
    lemma_blank_run_end_unique(bytes, end, end);
    assert(lexeme_at(bytes, end) == (Lexeme::End { at: end }));
    assert(lex_from(bytes, end) == Ok::<Seq<Pointed<Token>>, Lexeme>(Seq::empty()));
    let only = Pointed { position: position_at(bytes, start), data: number };
    assert(seq![only] + Seq::<Pointed<Token>>::empty() =~= seq![only]);
    assert forall|i: int| 0 <= i < start implies #[trigger] bytes[i] != LINE_FEED by {
        assert(is_blank(bytes[i]));
    }
    lemma_same_line(bytes, 0, start);
    let data = token_data(seq![only]);
    assert(is_literal_at(data, 0));
    assert(literal_at(data, 0) == decimal_value(digits) as i32);
}

/// A source made of digits only that denote a number above `i32::MAX` is
/// not lexed: the failure is that of an integer out of range, at the first
/// byte, and no token comes of it.
pub proof fn lemma_number_out_of_range(digits: Seq<u8>)
    requires
        all_digits(digits),
        decimal_value(digits) > i32::MAX,
    ensures
        lex(digits) == Err::<Seq<Pointed<Token>>, Lexeme>(Lexeme::InvalidInt { at: 0 }),
        outcome(digits) == (Outcome::LexFault { fault: Lexeme::InvalidInt { at: 0 } }),
{
    assert(digits.len() > 0);
    assert(is_digit(digits[0]));
    lemma_blank_run_end_unique(digits, 0, 0);
    lemma_digit_run_end_unique(digits, 0, digits.len() as int);
    assert(digits.subrange(0, digits.len() as int) =~= digits);
}

/// The text that the generator writes for a number that is not negative is
/// lexed back to that number: compiling its decimal notation gives the one
/// instruction that loads it, and the operand in the line of that
/// instruction is the source, character for character.
pub proof fn lemma_literal_round_trip(value: i32)
    requires
        value >= 0,
    ensures
        outcome(decimal_digits(value as nat)) == (Outcome::Program {
            instructions: seq![Instruction::MovImm(value)],
        }),
        Instruction::MovImm(value).text() == "  mov rax, "@ + ascii_text(
            decimal_digits(value as nat),
        ),
{
    lemma_decimal_digits_denote(value as nat);
    lemma_single_literal(Seq::<u8>::empty(), decimal_digits(value as nat));
    assert(Seq::<u8>::empty() + decimal_digits(value as nat) =~= decimal_digits(value as nat));
}

/// Two lexemes that are no tokens are the same kind of fault: both a number
/// out of range, or both the same invalid byte. Where they stand is not
/// compared.
pub open spec fn same_fault(left: Lexeme, right: Lexeme) -> bool {
    match left {
        Lexeme::InvalidInt { at } => right is InvalidInt,
        Lexeme::InvalidByte { at, byte } => right is InvalidByte && right->byte == byte,
        _ => false,
    }
}

/// Two results of lexing agree but for positions: both are the same tokens
/// in the same order, or both fail with the same kind of fault.
pub open spec fn lexed_alike(
    left: Result<Seq<Pointed<Token>>, Lexeme>,
    right: Result<Seq<Pointed<Token>>, Lexeme>,
) -> bool {
    match left {
        Ok(tokens) => right is Ok && token_data(tokens) == token_data(right->Ok_0),
        Err(fault) => right is Err && same_fault(fault, right->Err_0),
    }
}

/// Lexing from the end of the blanks at `from` is lexing from `from`.
proof fn lemma_lex_after_blanks(bytes: Seq<u8>, from: int)
    requires
        0 <= from <= bytes.len(),
    ensures
        lex_from(bytes, blank_run_end(bytes, from)) == lex_from(bytes, from),
{
    lemma_lexeme_after_blanks(bytes, from);
    lemma_lexeme_extent(bytes, from);
    lemma_lexeme_extent(bytes, blank_run_end(bytes, from));
}

/// A token in front of two results that agree gives results that agree,
/// wherever the token stands.
proof fn lemma_prepend_alike(
    left_first: Pointed<Token>,
    left: Result<Seq<Pointed<Token>>, Lexeme>,
    right_first: Pointed<Token>,
    right: Result<Seq<Pointed<Token>>, Lexeme>,
)
    requires
        left_first.data == right_first.data,
        lexed_alike(left, right),
    ensures
        lexed_alike(prepend_token(left_first, left), prepend_token(right_first, right)),
{
    if let Ok(tokens) = left {
        let others = right->Ok_0;
        assert(token_data(seq![left_first] + tokens) =~= seq![left_first.data] + token_data(
            tokens,
        ));
        assert(token_data(seq![right_first] + others) =~= seq![right_first.data] + token_data(
            others,
        ));
    }
}

/// What is lexed from an offset on depends on the bytes from that offset
/// on alone: two sources with the same bytes behind their offsets are lexed
/// alike from there.
pub proof fn lemma_lexing_is_local(left: Seq<u8>, from: int, right: Seq<u8>, start: int)
    requires
        0 <= from <= left.len(),
        0 <= start <= right.len(),
        left.skip(from) == right.skip(start),
    ensures
        lexed_alike(lex_from(left, from), lex_from(right, start)),
    decreases left.len() - from,
{
    let shift = start - from;
    assert(left.len() - from == right.len() - start) by {
        assert(left.skip(from).len() == right.skip(start).len());
    }
    assert forall|i: int| from <= i < left.len() implies #[trigger] left[i] == right[i + shift] by {
        assert(left.skip(from)[i - from] == left[i]);
        assert(right.skip(start)[i - from] == right[i + shift]);
    }
    lemma_blank_run_end(left, from);
    let token_start = blank_run_end(left, from);
    assert forall|i: int| start <= i < token_start + shift implies is_blank(
        #[trigger] right[i],
    ) by {
        assert(is_blank(left[i - shift]));
    }
    lemma_blank_run_end_unique(right, start, token_start + shift);
    lemma_lexeme_extent(left, from);
    lemma_lexeme_extent(right, start);
    if token_start < left.len() {
        if is_digit(left[token_start]) {
            lemma_digit_run_end(left, token_start);
            let token_end = digit_run_end(left, token_start);
            assert forall|i: int| token_start + shift <= i < token_end + shift implies is_digit(
                #[trigger] right[i],
            ) by {
                assert(is_digit(left[i - shift]));
            }
            lemma_digit_run_end_unique(right, token_start + shift, token_end + shift);
            assert(left.subrange(token_start, token_end) =~= right.subrange(
                token_start + shift,
                token_end + shift,
            ));
        }
        if let Lexeme::Token { token, start: at, end } = lexeme_at(left, from) {
            assert(lexeme_at(right, start) == (Lexeme::Token {
                token,
                start: at + shift,
                end: end + shift,
            }));
            assert(left.skip(end) =~= left.skip(from).skip(end - from));
            assert(right.skip(end + shift) =~= right.skip(start).skip(end - from));
            lemma_lexing_is_local(left, end, right, end + shift);
            lemma_prepend_alike(
                Pointed { position: position_at(left, at), data: token },
                lex_from(left, end),
                Pointed { position: position_at(right, at + shift), data: token },
                lex_from(right, end + shift),
            );
        }
    }
}

/// Spaces and tabs put into a source between two bytes that are not both
/// digits change nothing but positions: the tokens stay the same, and so
/// does the kind of the first fault.
pub proof fn lemma_blanks_between_tokens(front: Seq<u8>, blanks: Seq<u8>, back: Seq<u8>)
    requires
        forall|i: int| 0 <= i < blanks.len() ==> is_blank(#[trigger] blanks[i]),
        !(front.len() > 0 && back.len() > 0 && is_digit(front.last()) && is_digit(back[0])),
    ensures
        lexed_alike(lex(front + blanks + back), lex(front + back)),
        outcome(front + back) is Program ==> outcome(front + blanks + back) == outcome(
            front + back,
        ),
{
    lemma_blanks_behind_offset(front, blanks, back, 0);
}

/// The same as `lemma_blanks_between_tokens`, for lexing from an offset in
/// front of the place where the blanks are put in.
proof fn lemma_blanks_behind_offset(front: Seq<u8>, blanks: Seq<u8>, back: Seq<u8>, from: int)
    requires
        forall|i: int| 0 <= i < blanks.len() ==> is_blank(#[trigger] blanks[i]),
        !(front.len() > 0 && back.len() > 0 && is_digit(front.last()) && is_digit(back[0])),
        0 <= from <= front.len(),
    ensures
        lexed_alike(lex_from(front + blanks + back, from), lex_from(front + back, from)),
    decreases front.len() - from,
{
    let plain = front + back;
    let spaced = front + blanks + back;
    let cut = front.len() as int;
    let width = blanks.len() as int;
    assert forall|i: int| 0 <= i < cut implies spaced[i] == plain[i] by {}
    assert forall|i: int| cut <= i < plain.len() implies spaced[i + width] == plain[i] by {}
    lemma_blank_run_end(plain, from);
    lemma_lexeme_extent(plain, from);
    lemma_lexeme_extent(spaced, from);
    let token_start = blank_run_end(plain, from);
    if token_start >= cut {
        assert forall|i: int| from <= i < token_start + width implies is_blank(
            #[trigger] spaced[i],
        ) by {
            if i < cut {
                assert(is_blank(plain[i]));
            } else if i < cut + width {
                assert(spaced[i] == blanks[i - cut]);
            } else {
                assert(is_blank(plain[i - width]));
            }
        }
        lemma_blank_run_end_unique(spaced, from, token_start + width);
        lemma_lex_after_blanks(plain, from);
        lemma_lex_after_blanks(spaced, from);
        assert(spaced.skip(token_start + width) =~= plain.skip(token_start));
        lemma_lexing_is_local(spaced, token_start + width, plain, token_start);
    } else {
        assert forall|i: int| from <= i < token_start implies is_blank(#[trigger] spaced[i]) by {
            assert(is_blank(plain[i]));
        }
        lemma_blank_run_end_unique(spaced, from, token_start);
        if is_digit(plain[token_start]) {
            lemma_digit_run_end(plain, token_start);
            let token_end = digit_run_end(plain, token_start);
            if token_end > cut {
                assert(is_digit(plain[cut - 1]));
                assert(is_digit(plain[cut]));
                assert(front.last() == plain[cut - 1]);
                assert(back[0] == plain[cut]);
            }
            assert forall|i: int| token_start <= i < token_end implies is_digit(
                #[trigger] spaced[i],
            ) by {
                assert(is_digit(plain[i]));
            }
            if token_end == cut && width > 0 {
                assert(spaced[cut] == blanks[0]);
                assert(is_blank(blanks[0]));
            }
            if token_end == cut && width == 0 && cut < plain.len() {
                assert(spaced[cut + width] == plain[cut]);
            }
            lemma_digit_run_end_unique(spaced, token_start, token_end);
            assert(spaced.subrange(token_start, token_end) =~= plain.subrange(
                token_start,
                token_end,
            ));
        }
        if let Lexeme::Token { token, start, end } = lexeme_at(plain, from) {
            assert(lexeme_at(spaced, from) == (Lexeme::Token { token, start, end }));
            lemma_blanks_behind_offset(front, blanks, back, end);
            lemma_prepend_alike(
                Pointed { position: position_at(spaced, start), data: token },
                lex_from(spaced, end),
                Pointed { position: position_at(plain, start), data: token },
                lex_from(plain, end),
            );
        }
    }
}

/// A number that fits in a signed 32-bit register is its own value there.
pub proof fn lemma_wrap32_of_i32(value: int)
    requires
        i32::MIN <= value <= i32::MAX,
    ensures
        wrap32(value) == value,
{
}

/// Wrapping in between does not change the wrapped sum.
pub proof fn lemma_wrap32_absorbs(left: int, right: int)
    ensures
        wrap32(wrap32(left) + right) == wrap32(left + right),
        i32::MIN <= wrap32(left) <= i32::MAX,
{
}

/// Running one more instruction is one more step.
pub proof fn lemma_run_push(done: Seq<Instruction>, next: Instruction)
    ensures
        run(done.push(next)) == step(run(done), next),
{
    assert(done.push(next).drop_last() =~= done);
}

/// The pairs of a sign and a number from `from` on, turned into
/// instructions and run behind `done`, add to the accumulator what they add
/// to the value of the chain.
proof fn lemma_terms_compute(tokens: Seq<Token>, from: int, done: Seq<Instruction>, value: int)
    requires
        0 <= from,
        terms_from(tokens, from, done) is Ok,
        run(done) == wrap32(value),
    ensures
        run(terms_from(tokens, from, done)->Ok_0) == wrap32(evaluate_from(tokens, from, value)),
    decreases tokens.len() - from,
{
    if from < tokens.len() {
        let operand = literal_at(tokens, from + 1);
        match tokens[from] {
            Token::SymPlus => {
                let next = Instruction::AddImm(operand);
                lemma_run_push(done, next);
                lemma_wrap32_absorbs(value, operand as int);
                lemma_terms_compute(tokens, from + 2, done.push(next), value + operand);
            },
            Token::SymMinus => {
                let next = Instruction::SubImm(operand);
                lemma_run_push(done, next);
                lemma_wrap32_absorbs(value, -(operand as int));
                lemma_terms_compute(tokens, from + 2, done.push(next), value - operand);
            },
            _ => {},
        }
    }
}

/// Running the instructions of a chain leaves in the accumulator the value
/// of the chain, worked out from left to right, as a signed 32-bit register
/// holds it.
pub proof fn lemma_program_computes_chain(tokens: Seq<Token>)
    requires
        chain_instructions(tokens) is Ok,
    ensures
        run(chain_instructions(tokens)->Ok_0) == wrap32(chain_value(tokens)),
        i32::MIN <= run(chain_instructions(tokens)->Ok_0) <= i32::MAX,
{
    let first = Instruction::MovImm(literal_at(tokens, 0));
    assert(seq![first] =~= Seq::<Instruction>::empty().push(first));
    lemma_run_push(Seq::<Instruction>::empty(), first);
    lemma_wrap32_of_i32(literal_at(tokens, 0) as int);
    lemma_terms_compute(tokens, 1, seq![first], literal_at(tokens, 0) as int);
    lemma_wrap32_absorbs(chain_value(tokens), 0);
}

/// Lexing the same source from the same offset a second time gives the same
/// again: the same tokens at the same positions, or a failure of the same
/// kind at the same place.
pub proof fn lemma_lexing_repeats(
    source: Seq<u8>,
    from: int,
    first: Result<TokenStream, LexerError>,
    second: Result<TokenStream, LexerError>,
)
    requires
        is_lexing_of(first, source, from),
        is_lexing_of(second, source, from),
    ensures
        first is Ok <==> second is Ok,
        first is Ok ==> first->Ok_0.tokens() == second->Ok_0.tokens() && first->Ok_0.cursor()
            == second->Ok_0.cursor(),
        first is Err ==> {
            &&& first->Err_0.lexer_occurrence_position == second->Err_0.lexer_occurrence_position
            &&& first->Err_0.inner is InvalidInt <==> second->Err_0.inner is InvalidInt
            &&& first->Err_0.inner is InvalidByte ==> first->Err_0.inner == second->Err_0.inner
        },
{
}

} // verus!
