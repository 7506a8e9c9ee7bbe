//! The lexer: a cursor over the source text that hands out one token at a
//! time and keeps track of line and column.

use crate::ascii::{
    all_ascii, byte_is_blank, byte_is_digit, is_ascii_byte, is_blank, is_digit,
    lemma_ascii_prefix_is_char_boundary, MINUS_SIGN, PLUS_SIGN,
};
use crate::position::{
    lemma_position_bounds, lemma_same_line, position_at, Pointed, SourcePosition, LINE_FEED,
};
use crate::strtol::{
    decimal_value, digit_run_end, leading_digits, lemma_digit_run_end,
    lemma_digit_run_end_unique, str_to_fromstr,
};
use crate::token::Token;
use std::num::ParseIntError;
use vstd::prelude::*;
use vstd::string::StringSliceAdditionalSpecFns;
use vstd::utf8::encode_utf8_valid_utf8;

verus! {

/// Why the lexer could not produce a token.
#[derive(Debug)]
pub enum LexerErrorInner {
    /// A run of digits that does not denote an `i32`, with the error of the
    /// integer parser.
    InvalidInt(ParseIntError),
    /// A byte that starts no token.
    InvalidByte(u8),
}

/// What the source holds at some offset, once the blanks there are skipped.
pub enum Lexeme {
    /// A token that covers the bytes `start..end`.
    Token { token: Token, start: int, end: int },
    /// Nothing: the source ends at `at`.
    End { at: int },
    /// A run of digits, starting at `at`, that denotes no `i32`.
    InvalidInt { at: int },
    /// At `at`, a byte that starts no token.
    InvalidByte { at: int, byte: u8 },
}

/// End of the longest run of spaces and tabs that starts at `from`.
pub open spec fn blank_run_end(bytes: Seq<u8>, from: int) -> int
    decreases bytes.len() - from,
{
    if 0 <= from < bytes.len() && is_blank(bytes[from]) {
        blank_run_end(bytes, from + 1)
    } else {
        from
    }
}

/// The lexeme that a lexer standing at `from` meets: blanks are skipped, then
/// the next byte decides.
pub open spec fn lexeme_at(bytes: Seq<u8>, from: int) -> Lexeme {
    let start = blank_run_end(bytes, from);
    if start >= bytes.len() {
        Lexeme::End { at: start }
    } else if is_digit(bytes[start]) {
        let end = digit_run_end(bytes, start);
        let number = decimal_value(bytes.subrange(start, end));
        if number <= i32::MAX {
            Lexeme::Token { token: Token::LiteralInt(number as i32), start, end }
        } else {
            Lexeme::InvalidInt { at: start }
        }
    } else if bytes[start] == PLUS_SIGN {
        Lexeme::Token { token: Token::SymPlus, start, end: start + 1 }
    } else if bytes[start] == MINUS_SIGN {
        Lexeme::Token { token: Token::SymMinus, start, end: start + 1 }
    } else if bytes[start] == LINE_FEED {
        Lexeme::Token { token: Token::NewLine, start, end: start + 1 }
    } else {
        Lexeme::InvalidByte { at: start, byte: bytes[start] }
    }
}

/// The run that `blank_run_end` measures holds blanks only and cannot be
/// extended.
pub proof fn lemma_blank_run_end(bytes: Seq<u8>, from: int)
    requires
        0 <= from <= bytes.len(),
    ensures
        from <= blank_run_end(bytes, from) <= bytes.len(),
        forall|i: int| from <= i < blank_run_end(bytes, from) ==> is_blank(#[trigger] bytes[i]),
        blank_run_end(bytes, from) < bytes.len() ==> !is_blank(
            bytes[blank_run_end(bytes, from)],
        ),
    decreases bytes.len() - from,
{
    if from < bytes.len() && is_blank(bytes[from]) {
        lemma_blank_run_end(bytes, from + 1);
    }
}

/// A token lies inside the source, behind the offset it was looked for at,
/// is not empty, and is made of ASCII bytes, as are the blanks in front of
/// it; a line feed is its own token and occurs in no other.
pub proof fn lemma_lexeme_extent(bytes: Seq<u8>, from: int)
    requires
        0 <= from <= bytes.len(),
    ensures
        match lexeme_at(bytes, from) {
            Lexeme::Token { token, start, end } => {
                &&& from <= start < end <= bytes.len()
                &&& start == blank_run_end(bytes, from)
                &&& all_ascii(bytes, from, end)
                &&& forall|i: int| from <= i < start ==> #[trigger] bytes[i] != LINE_FEED
                &&& token != Token::EndOfFile
                &&& token == Token::NewLine ==> end == start + 1 && bytes[start] == LINE_FEED
                &&& token != Token::NewLine ==> forall|i: int|
                    start <= i < end ==> #[trigger] bytes[i] != LINE_FEED
            },
            Lexeme::End { at } => at == bytes.len() && at == blank_run_end(bytes, from),
            Lexeme::InvalidInt { at } => from <= at < bytes.len() && at == blank_run_end(
                bytes,
                from,
            ),
            Lexeme::InvalidByte { at, byte } => from <= at < bytes.len() && at == blank_run_end(
                bytes,
                from,
            ) && byte == bytes[at],
        },
{
    lemma_blank_run_end(bytes, from);
    let start = blank_run_end(bytes, from);
    if start < bytes.len() {
        lemma_digit_run_end(bytes, start);
        if is_digit(bytes[start]) {
            let end = digit_run_end(bytes, start);
            assert forall|i: int| from <= i < end implies is_ascii_byte(#[trigger] bytes[i]) by {
                if i < start {
                    assert(is_blank(bytes[i]));
                } else {
                    assert(is_digit(bytes[i]));
                }
            }
            assert forall|i: int| start <= i < end implies #[trigger] bytes[i] != LINE_FEED by {
                assert(is_digit(bytes[i]));
            }
        } else {
            assert forall|i: int| from <= i < start + 1 && bytes[start] < 0x80 implies is_ascii_byte(
                #[trigger] bytes[i],
            ) by {
                if i < start {
                    assert(is_blank(bytes[i]));
                }
            }
        }
        assert forall|i: int| from <= i < start implies #[trigger] bytes[i] != LINE_FEED by {
            assert(is_blank(bytes[i]));
        }
    }
}

/// Looking again from the end of the blanks finds the same lexeme.
pub proof fn lemma_lexeme_after_blanks(bytes: Seq<u8>, from: int)
    requires
        0 <= from <= bytes.len(),
    ensures
        lexeme_at(bytes, blank_run_end(bytes, from)) == lexeme_at(bytes, from),
{
    lemma_blank_run_end(bytes, from);
    let start = blank_run_end(bytes, from);
    assert(blank_run_end(bytes, start) == start);
}

/// The tokens of `bytes` from `from` to the end of the source, each with the
/// position of its first byte; or, if one of the lexemes on the way is no
/// token, the first such lexeme.
pub open spec fn lex_from(bytes: Seq<u8>, from: int) -> Result<Seq<Pointed<Token>>, Lexeme>
    decreases bytes.len() - from,
{
    match lexeme_at(bytes, from) {
        Lexeme::Token { token, start, end } => {
            if from < end <= bytes.len() {
                prepend_token(
                    Pointed { position: position_at(bytes, start), data: token },
                    lex_from(bytes, end),
                )
            } else {
                Ok(Seq::empty())
            }
        },
        Lexeme::End { at } => Ok(Seq::empty()),
        fault => Err(fault),
    }
}

/// The tokens of a whole source.
pub open spec fn lex(bytes: Seq<u8>) -> Result<Seq<Pointed<Token>>, Lexeme> {
    lex_from(bytes, 0)
}

/// Puts `first` in front of the tokens of `rest`; a failure stays as it is.
pub open spec fn prepend_token(
    first: Pointed<Token>,
    rest: Result<Seq<Pointed<Token>>, Lexeme>,
) -> Result<Seq<Pointed<Token>>, Lexeme> {
    match rest {
        Ok(tokens) => Ok(seq![first] + tokens),
        Err(fault) => Err(fault),
    }
}

/// Puts `front` in front of the tokens of `rest`; a failure stays as it is.
pub open spec fn prepend_tokens(
    front: Seq<Pointed<Token>>,
    rest: Result<Seq<Pointed<Token>>, Lexeme>,
) -> Result<Seq<Pointed<Token>>, Lexeme> {
    match rest {
        Ok(tokens) => Ok(front + tokens),
        Err(fault) => Err(fault),
    }
}

/// A lexing failure together with the place where the lexer stopped.
#[derive(Debug)]
pub struct LexerError {
    /// What was wrong.
    pub inner: LexerErrorInner,
    /// Byte offset and position of the first byte that could not be lexed.
    pub lexer_occurrence_position: (usize, SourcePosition),
}

impl LexerError {
    /// This error tells of `fault`, met in `source`: it has the kind of the
    /// fault, the byte in question, and the offset and position of the fault.
    pub open spec fn reports(&self, source: Seq<u8>, fault: Lexeme) -> bool {
        match fault {
            Lexeme::InvalidInt { at } => {
                &&& self.inner is InvalidInt
                &&& self.lexer_occurrence_position == (at as usize, position_at(source, at))
            },
            Lexeme::InvalidByte { at, byte } => {
                &&& self.inner == LexerErrorInner::InvalidByte(byte)
                &&& self.lexer_occurrence_position == (at as usize, position_at(source, at))
            },
            _ => false,
        }
    }
}

/// A cursor over a source text.
pub struct Lexer<'a> {
    input: &'a str,
    byte_pos: usize,
    current: SourcePosition,
}

impl<'a> Lexer<'a> {
    #[verifier::type_invariant]
    closed spec fn consistent(&self) -> bool {
        &&& self.byte_pos <= self.input.spec_bytes().len() < usize::MAX
        &&& all_ascii(self.input.spec_bytes(), 0, self.byte_pos as int)
        &&& self.current == position_at(self.input.spec_bytes(), self.byte_pos as int)
    }

    /// The bytes of the source text.
    pub closed spec fn source(&self) -> Seq<u8> {
        self.input.spec_bytes()
    }

    /// The number of bytes the lexer has moved over.
    pub closed spec fn offset(&self) -> int {
        self.byte_pos as int
    }

    /// A lexer at the start of `source`, on line 1 and in column 1.
    pub fn new(source: &'a str) -> (lexer: Self)
        requires
            source.spec_bytes().len() < usize::MAX,
        ensures
            lexer.source() == source.spec_bytes(),
            lexer.offset() == 0,
    {
        Self { input: source, byte_pos: 0, current: SourcePosition { line: 1, column: 1 } }
    }

    /// The offset of the next byte to read.
    pub fn byte_pos(&self) -> (r: usize)
        ensures
            r == self.offset(),
            r <= self.source().len() < usize::MAX,
    {
        proof {
            use_type_invariant(self);
        }
        self.byte_pos
    }

    /// The line and column of the next byte to read.
    pub fn current(&self) -> (r: SourcePosition)
        ensures
            r == position_at(self.source(), self.offset()),
            0 <= self.offset() <= self.source().len() < usize::MAX,
    {
        proof {
            use_type_invariant(self);
        }
        self.current
    }

    /// Moves over the next `n` bytes, which must be ASCII bytes of the
    /// current line.
    pub fn advance_on_same_line(&mut self, n: usize)
        requires
            old(self).offset() + n <= old(self).source().len(),
            forall|i: int|
                old(self).offset() <= i < old(self).offset() + n ==> {
                    &&& is_ascii_byte(#[trigger] old(self).source()[i])
                    &&& old(self).source()[i] != LINE_FEED
                },
        ensures
            final(self).source() == old(self).source(),
            final(self).offset() == old(self).offset() + n,
    {
        proof {
            use_type_invariant(&*self);
            let bytes = self.input.spec_bytes();
            lemma_same_line(bytes, self.byte_pos as int, n as int);
            lemma_position_bounds(bytes, self.byte_pos as int);
            lemma_position_bounds(bytes, self.byte_pos + n);
        }
        *self = Lexer {
            input: self.input,
            byte_pos: self.byte_pos + n,
            current: SourcePosition {
                line: self.current.line,
                column: self.current.column + n,
            },
        };
    }

    /// Moves over the line feed that the lexer stands at.
    fn advance_to_next_line(&mut self)
        requires
            old(self).offset() < old(self).source().len(),
            old(self).source()[old(self).offset()] == LINE_FEED,
        ensures
            final(self).source() == old(self).source(),
            final(self).offset() == old(self).offset() + 1,
    {
        proof {
            use_type_invariant(&*self);
            let bytes = self.input.spec_bytes();
            lemma_position_bounds(bytes, self.byte_pos as int);
            lemma_position_bounds(bytes, self.byte_pos + 1);
        }
        *self = Lexer {
            input: self.input,
            byte_pos: self.byte_pos + 1,
            current: SourcePosition { line: self.current.line + 1, column: 1 },
        };
    }

    /// Moves over the spaces and tabs that the lexer stands at.
    fn skip_blanks(&mut self)
        ensures
            final(self).source() == old(self).source(),
            final(self).offset() == blank_run_end(old(self).source(), old(self).offset()),
            final(self).offset() <= final(self).source().len(),
    {
        let bytes = self.input.as_bytes();
        proof {
            use_type_invariant(&*self);
        }
        while self.byte_pos < bytes.len() && byte_is_blank(bytes[self.byte_pos])
            invariant
                self.input.spec_bytes() == old(self).input.spec_bytes(),
                bytes@ == self.input.spec_bytes(),
                self.byte_pos <= bytes@.len(),
                blank_run_end(bytes@, self.byte_pos as int) == blank_run_end(
                    bytes@,
                    old(self).byte_pos as int,
                ),
            decreases bytes@.len() - self.byte_pos,
        {
            self.advance_on_same_line(1);
        }
    }

    /// The source text from the next byte to read onwards.
    pub fn rest(&self) -> (r: &'a str)
        ensures
            r.spec_bytes() == self.source().skip(self.offset()),
    {
        broadcast use encode_utf8_valid_utf8;

        proof {
            use_type_invariant(self);
            lemma_ascii_prefix_is_char_boundary(self.input.spec_bytes(), self.byte_pos as int);
        }
        let (_, rest) = self.input.split_at(self.byte_pos);
        rest
    }

    /// Reads the next token: skips spaces and tabs, then takes a number, a
    /// sign or a line feed, and moves behind it.
    ///
    /// At the end of the source the token is `EndOfFile`. A run of digits
    /// that denotes no `i32`, and a byte that starts no token, are errors;
    /// the lexer then stays in front of them.
    pub fn next_token(&mut self) -> (r: Result<Token, LexerErrorInner>)
        ensures
            final(self).source() == old(self).source(),
            match lexeme_at(old(self).source(), old(self).offset()) {
                Lexeme::Token { token, start, end } => r matches Ok(found) && found == token
                    && final(self).offset() == end,
                Lexeme::End { at } => r matches Ok(found) && found == Token::EndOfFile
                    && final(self).offset() == at,
                Lexeme::InvalidInt { at } => r matches Err(LexerErrorInner::InvalidInt(_))
                    && final(self).offset() == at,
                Lexeme::InvalidByte { at, byte } => r matches Err(
                    LexerErrorInner::InvalidByte(found),
                ) && found == byte && final(self).offset() == at,
            },
    {
        self.skip_blanks();
        let bytes = self.input.as_bytes();
        proof {
            use_type_invariant(&*self);
            lemma_lexeme_extent(old(self).source(), old(self).offset());
        }
        if self.byte_pos >= bytes.len() {
            return Ok(Token::EndOfFile);
        }
        let byte = bytes[self.byte_pos];
        if byte_is_digit(byte) {
            let ghost start = self.byte_pos as int;
            let ghost end = digit_run_end(bytes@, start);
            proof {
                lemma_digit_run_end(bytes@, start);
                let tail = bytes@.skip(start);
                lemma_digit_run_end_unique(tail, 0, end - start);
                assert(leading_digits(tail) =~= bytes@.subrange(start, end));
            }
            match str_to_fromstr(self.rest()) {
                Ok((parsed, rest)) => {
                    let consumed = self.input.len() - self.byte_pos - rest.len();
                    self.advance_on_same_line(consumed);
                    Ok(Token::LiteralInt(parsed))
                },
                Err(error) => Err(LexerErrorInner::InvalidInt(error)),
            }
        } else if byte == PLUS_SIGN {
            self.advance_on_same_line(1);
            Ok(Token::SymPlus)
        } else if byte == MINUS_SIGN {
            self.advance_on_same_line(1);
            Ok(Token::SymMinus)
        } else if byte == LINE_FEED {
            self.advance_to_next_line();
            Ok(Token::NewLine)
        } else {
            Err(LexerErrorInner::InvalidByte(byte))
        }
    }

    /// Reads the next token and pairs it with the position of its first
    /// byte; `EndOfFile` is paired with the position of the end of the
    /// source.
    pub fn next(&mut self) -> (r: Result<Pointed<Token>, LexerErrorInner>)
        ensures
            final(self).source() == old(self).source(),
            match lexeme_at(old(self).source(), old(self).offset()) {
                Lexeme::Token { token, start, end } => r matches Ok(found) && found.data == token
                    && found.position == position_at(old(self).source(), start)
                    && final(self).offset() == end,
                Lexeme::End { at } => r matches Ok(found) && found.data == Token::EndOfFile
                    && found.position == position_at(old(self).source(), at)
                    && final(self).offset() == at,
                Lexeme::InvalidInt { at } => r matches Err(LexerErrorInner::InvalidInt(_))
                    && final(self).offset() == at,
                Lexeme::InvalidByte { at, byte } => r matches Err(
                    LexerErrorInner::InvalidByte(found),
                ) && found == byte && final(self).offset() == at,
            },
    {
        proof {
            use_type_invariant(&*self);
            lemma_lexeme_after_blanks(self.source(), self.offset());
            lemma_lexeme_extent(self.source(), self.offset());
        }
        self.skip_blanks();
        let here = self.current();
        match self.next_token() {
            Ok(token) => Ok(Pointed { position: here, data: token }),
            Err(error) => Err(error),
        }
    }
}

} // verus!
