//! Front end of a minimal compiler for chains of additions and subtractions.
//!
//! Source text is lexed into position-tagged tokens, the tokens are checked
//! against the grammar `number (('+' | '-') number)*`, and the chain is turned
//! into x86-64 assembly that leaves its value in `rax`.

pub mod ascii;
pub mod assembler;
pub mod compile;
pub mod diagnostics;
pub mod grammar;
pub mod instruction;
pub mod lexer;
pub mod position;
pub mod strtol;
pub mod text;
pub mod theorems;
pub mod token;
pub mod token_stream;
