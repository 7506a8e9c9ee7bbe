//! The token stream: all tokens of a source, read once from left to right.

use crate::lexer::{lemma_lexeme_extent, lex_from, prepend_tokens, Lexeme, Lexer, LexerError};
use crate::position::Pointed;
use crate::token::Token;
use vstd::prelude::*;

verus! {

/// Tells whether `result` is what lexing `source` from the offset `from`
/// comes to: a stream of all the tokens with nothing read yet, or an error
/// that reports the first lexeme that is no token.
pub open spec fn is_lexing_of(
    result: Result<TokenStream, LexerError>,
    source: Seq<u8>,
    from: int,
) -> bool {
    match lex_from(source, from) {
        Ok(tokens) => result matches Ok(stream) && stream.tokens() == tokens && stream.cursor()
            == 0,
        Err(fault) => result matches Err(error) && error.reports(source, fault),
    }
}

/// The tokens of a source in their order, and a cursor that tells which of
/// them is read next.
pub struct TokenStream {
    content: Vec<Pointed<Token>>,
    position: usize,
}

impl TokenStream {
    #[verifier::type_invariant]
    closed spec fn consistent(&self) -> bool {
        self.position <= self.content@.len()
    }

    /// All tokens of the stream, read or not.
    pub closed spec fn tokens(&self) -> Seq<Pointed<Token>> {
        self.content@
    }

    /// The index of the token that is read next; the number of tokens when
    /// all are read.
    pub closed spec fn cursor(&self) -> int {
        self.position as int
    }

    /// The tokens that are still to be read.
    pub open spec fn remaining(&self) -> Seq<Pointed<Token>> {
        self.tokens().skip(self.cursor())
    }

    /// Lexes the source of `lexer` from where it stands to the end.
    ///
    /// On success the stream holds every token in source order, without the
    /// final `EndOfFile`, and nothing of it is read yet. The first lexeme
    /// that is no token makes the call fail, with the kind of the failure
    /// and the place where the lexer stopped.
    pub fn try_from(lexer: Lexer<'_>) -> (r: Result<TokenStream, LexerError>)
        ensures
            is_lexing_of(r, lexer.source(), lexer.offset()),
    {
        let mut value = lexer;
        let mut buffer: Vec<Pointed<Token>> = Vec::new();
        let ghost source = lexer.source();
        let ghost start = lexer.offset();
        let _ = value.byte_pos();
        assert(prepend_tokens(buffer@, lex_from(source, start)) == lex_from(source, start)) by {
            if let Ok(tokens) = lex_from(source, start) {
                assert(buffer@ + tokens =~= tokens);
            }
        }
        loop
            invariant
                source == lexer.source(),
                start == lexer.offset(),
                value.source() == source,
                0 <= value.offset() <= source.len(),
                lex_from(source, start) == prepend_tokens(
                    buffer@,
                    lex_from(source, value.offset()),
                ),
            ensures
                lex_from(source, start) == Ok::<Seq<Pointed<Token>>, Lexeme>(buffer@),
            decreases source.len() - value.offset(),
        {
            let ghost before = value.offset();
            proof {
                lemma_lexeme_extent(source, before);
            }
            match value.next() {
                Ok(new) => {
                    match new.data {
                        Token::EndOfFile => {
                            assert(buffer@ + Seq::<Pointed<Token>>::empty() =~= buffer@);
                            break ;
                        },
                        _ => {},
                    }
                    proof {
                        let rest = lex_from(source, value.offset());
                        if let Ok(tokens) = rest {
                            assert(buffer@ + (seq![new] + tokens) =~= buffer@.push(new) + tokens);
                        }
                    }
                    buffer.push(new);
                },
                Err(inner) => {
                    return Err(
                        LexerError {
                            inner,
                            lexer_occurrence_position: (value.byte_pos(), value.current()),
                        },
                    );
                },
            }
        }
        Ok(TokenStream { content: buffer, position: 0 })
    }

    /// The token that is read next, if any is left; the stream stays as it
    /// is.
    pub fn peek(&self) -> (r: Option<&Pointed<Token>>)
        ensures
            0 <= self.cursor() <= self.tokens().len(),
            self.cursor() < self.tokens().len() ==> r == Some(&self.tokens()[self.cursor()]),
            self.cursor() == self.tokens().len() ==> r is None,
    {
        proof {
            use_type_invariant(self);
        }
        if self.position < self.content.len() {
            Some(&self.content[self.position])
        } else {
            None
        }
    }

    /// Reads the next token, if any is left, and moves the cursor behind
    /// it. Once all tokens are read the stream stays as it is.
    pub fn next(&mut self) -> (r: Option<&Pointed<Token>>)
        ensures
            final(self).tokens() == old(self).tokens(),
            0 <= old(self).cursor() <= old(self).tokens().len(),
            old(self).cursor() < old(self).tokens().len() ==> {
                &&& r == Some(&old(self).tokens()[old(self).cursor()])
                &&& final(self).cursor() == old(self).cursor() + 1
            },
            old(self).cursor() == old(self).tokens().len() ==> {
                &&& r is None
                &&& final(self).cursor() == old(self).cursor()
            },
    {
        proof {
            use_type_invariant(&*self);
        }
        let at = self.position;
        if at < self.content.len() {
            self.position = at + 1;
            Some(&self.content[at])
        } else {
            None
        }
    }
}

} // verus!
