//! The whole way from source text to the lines of the program.

use crate::assembler::Assembler;
use crate::grammar::{chain_instructions, parse_chain, token_data, ChainFault, GrammarError};
use crate::instruction::{program_text, Instruction};
use crate::lexer::{lex, Lexeme, Lexer, LexerError};
use crate::position::Pointed;
use crate::token::Token;
use crate::token_stream::TokenStream;
use vstd::prelude::*;
use vstd::string::StringSliceAdditionalSpecFns;

verus! {

/// Why a source could not be compiled.
#[derive(Debug)]
pub enum CompileError {
    /// The source holds something that is no token.
    Lexing(LexerError),
    /// The tokens do not follow the grammar.
    Grammar(GrammarError),
}

/// What compiling a source comes to.
pub enum Outcome {
    /// The source is a chain; these are its instructions.
    Program { instructions: Seq<Instruction> },
    /// The source holds a lexeme that is no token.
    LexFault { fault: Lexeme },
    /// The source has these tokens, and they break the grammar.
    GrammarFault { tokens: Seq<Pointed<Token>>, fault: ChainFault },
}

/// What compiling the source `bytes` comes to: lexing decides first, then
/// the grammar.
pub open spec fn outcome(bytes: Seq<u8>) -> Outcome {
    match lex(bytes) {
        Err(fault) => Outcome::LexFault { fault },
        Ok(tokens) => match chain_instructions(token_data(tokens)) {
            Err(fault) => Outcome::GrammarFault { tokens, fault },
            Ok(instructions) => Outcome::Program { instructions },
        },
    }
}

/// Tells whether `result` is what compiling the source `bytes` comes to:
/// the text of the program, or an error that reports the fault.
pub open spec fn is_compilation_of(result: Result<Vec<String>, CompileError>, bytes: Seq<u8>) -> bool {
    match outcome(bytes) {
        Outcome::Program { instructions } => result matches Ok(lines) && lines.deep_view()
            == program_text(instructions),
        Outcome::LexFault { fault } => result matches Err(CompileError::Lexing(error))
            && error.reports(bytes, fault),
        Outcome::GrammarFault { tokens, fault } => result matches Err(
            CompileError::Grammar(error),
        ) && error.reports(tokens, fault),
    }
}

/// Compiles `source` to the lines of an assembly program that leaves the
/// value of the chain in `rax`.
///
/// A source that cannot be lexed fails with the lexing error, whatever its
/// tokens up to there are; a source whose tokens break the grammar fails
/// with the grammar error. No line is produced on failure.
pub fn compile(source: &str) -> (r: Result<Vec<String>, CompileError>)
    requires
        source.spec_bytes().len() < usize::MAX,
    ensures
        is_compilation_of(r, source.spec_bytes()),
{
    let mut tokens = match TokenStream::try_from(Lexer::new(source)) {
        Ok(tokens) => tokens,
        Err(error) => {
            return Err(CompileError::Lexing(error));
        },
    };
    assert(tokens.remaining() =~= tokens.tokens());
    let instructions = match parse_chain(&mut tokens) {
        Ok(instructions) => instructions,
        Err(error) => {
            return Err(CompileError::Grammar(error));
        },
    };
    let mut assembler = Assembler::new();
    assembler.emit_program(&instructions);
    assert(assembler@ =~= program_text(instructions@));
    Ok(assembler.into_lines())
}

} // verus!
