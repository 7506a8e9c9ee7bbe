//! What the user is told when lexing or the grammar check fails.

use crate::grammar::{GrammarError, GrammarViolation};
use crate::lexer::{LexerError, LexerErrorInner};
use crate::position::{Pointed, SourcePosition};
use crate::text::{
    ascii_text, decimal_digits, hex_pair, push_decimal, push_hex_pair, push_signed_decimal,
    push_spaces, signed_decimal, spaces,
};
use crate::token::Token;
use std::num::ParseIntError;
use vstd::prelude::*;
use vstd::string::{to_string_from_display_ensures, StringExecFns};

verus! {

impl LexerErrorInner {
    /// Tells whether `text` is the message for this failure.
    ///
    /// For a number out of range the message ends in what the integer
    /// parser says of its error; for a byte it ends in the two hexadecimal
    /// digits of the byte, directly behind `\x`.
    pub open spec fn has_message(&self, text: Seq<char>) -> bool {
        match self {
            LexerErrorInner::InvalidInt(error) => exists|detail: String|
                #[trigger] to_string_from_display_ensures::<ParseIntError>(error, detail) && text
                    == "cannot parse as integer: "@ + detail@,
            LexerErrorInner::InvalidByte(byte) => text == "invalid byte: \\x"@ + ascii_text(
                hex_pair(*byte),
            ),
        }
    }

    /// The message for this failure.
    pub fn message(&self) -> (text: String)
        ensures
            self.has_message(text@),
    {
        match self {
            LexerErrorInner::InvalidInt(error) => {
                let detail = error.to_string();
                let mut text = String::from_str("cannot parse as integer: ");
                text.append(detail.as_str());
                assert(to_string_from_display_ensures::<ParseIntError>(error, detail));
                text
            },
            LexerErrorInner::InvalidByte(byte) => {
                let mut text = String::from_str("invalid byte: \\x");
                push_hex_pair(&mut text, *byte);
                text
            },
        }
    }
}

/// The line that points at a byte of the line above it: as many spaces as
/// bytes stand in front of the byte, a caret, a space, and the message.
pub open spec fn caret_line(offset: nat, message: Seq<char>) -> Seq<char> {
    spaces(offset) + "^ "@ + message
}

impl LexerError {
    /// Tells whether `lines` is what is shown for this error in `source`:
    /// the source as it is, then the caret line with the message.
    pub open spec fn has_diagnostic(&self, source: Seq<char>, lines: Seq<Seq<char>>) -> bool {
        exists|message: Seq<char>|
            #[trigger] self.inner.has_message(message) && lines == seq![
                source,
                caret_line(self.lexer_occurrence_position.0 as nat, message),
            ]
    }

    /// The two lines that are shown for this error in `source`.
    pub fn diagnostic(&self, source: &str) -> (lines: Vec<String>)
        ensures
            self.has_diagnostic(source@, lines.deep_view()),
    {
        let message = self.inner.message();
        let mut pointer = String::new();
        push_spaces(&mut pointer, self.lexer_occurrence_position.0);
        pointer.append("^ ");
        pointer.append(message.as_str());
        let mut lines: Vec<String> = Vec::new();
        lines.push(String::from_str(source));
        lines.push(pointer);
        assert(lines.deep_view() =~= seq![
            source@,
            caret_line(self.lexer_occurrence_position.0 as nat, message@),
        ]);
        assert(self.inner.has_message(message@));
        lines
    }
}

impl GrammarViolation {
    /// The rule that was broken, in words.
    pub open spec fn text(self) -> Seq<char> {
        match self {
            GrammarViolation::MissingFirstLiteral => "the expression must start with a number"@,
            GrammarViolation::MissingRightOperandOfPlus =>
                "the right-hand side of an addition must be a number"@,
            GrammarViolation::MissingRightOperandOfMinus =>
                "the right-hand side of a subtraction must be a number"@,
            GrammarViolation::UnexpectedToken => "unexpected token"@,
        }
    }

    /// The rule that was broken, in words.
    pub fn describe(self) -> (text: &'static str)
        ensures
            text@ == self.text(),
    {
        match self {
            GrammarViolation::MissingFirstLiteral => "the expression must start with a number",
            GrammarViolation::MissingRightOperandOfPlus => {
                "the right-hand side of an addition must be a number"
            },
            GrammarViolation::MissingRightOperandOfMinus => {
                "the right-hand side of a subtraction must be a number"
            },
            GrammarViolation::UnexpectedToken => "unexpected token",
        }
    }
}

impl Token {
    /// What the token is called in a message.
    pub open spec fn text(self) -> Seq<char> {
        match self {
            Token::LiteralInt(value) => "the number "@ + ascii_text(signed_decimal(value as int)),
            Token::SymPlus => "`+`"@,
            Token::SymMinus => "`-`"@,
            Token::NewLine => "a line feed"@,
            Token::EndOfFile => "the end of the input"@,
        }
    }

    /// Appends what the token is called in a message.
    pub fn describe_into(self, out: &mut String)
        ensures
            final(out)@ == old(out)@ + self.text(),
    {
        match self {
            Token::LiteralInt(value) => {
                out.append("the number ");
                push_signed_decimal(out, value);
                assert(out@ =~= old(out)@ + self.text());
            },
            Token::SymPlus => out.append("`+`"),
            Token::SymMinus => out.append("`-`"),
            Token::NewLine => out.append("a line feed"),
            Token::EndOfFile => out.append("the end of the input"),
        }
    }
}

impl SourcePosition {
    /// The position in words: line and column in decimal.
    pub open spec fn text(self) -> Seq<char> {
        "line "@ + ascii_text(decimal_digits(self.line as nat)) + ", column "@ + ascii_text(
            decimal_digits(self.column as nat),
        )
    }

    /// Appends the position in words.
    pub fn describe_into(self, out: &mut String)
        ensures
            final(out)@ == old(out)@ + self.text(),
    {
        out.append("line ");
        push_decimal(out, self.line as u64);
        out.append(", column ");
        push_decimal(out, self.column as u64);
        assert(out@ =~= old(out)@ + self.text());
    }
}

/// What stands where another token was due, in words: the token and its
/// position, or the end of the input.
pub open spec fn found_text(found: Option<Pointed<Token>>) -> Seq<char> {
    match found {
        Some(token) => token.data.text() + " at "@ + token.position.text(),
        None => "the end of the input"@,
    }
}

impl GrammarError {
    /// The message for this error: the broken rule, then what was found in
    /// place of the token that was due.
    pub open spec fn message_text(&self) -> Seq<char> {
        self.kind.text() + ": found "@ + found_text(self.found)
    }

    /// The message for this error.
    pub fn message(&self) -> (text: String)
        ensures
            text@ == self.message_text(),
    {
        let mut text = String::from_str(self.kind.describe());
        text.append(": found ");
        match &self.found {
            Some(token) => {
                token.data.describe_into(&mut text);
                text.append(" at ");
                token.position.describe_into(&mut text);
            },
            None => {
                text.append("the end of the input");
            },
        }
        assert(text@ =~= self.message_text());
        text
    }
}

} // verus!
