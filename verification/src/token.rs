//! The tokens of the source language.

use vstd::prelude::*;

verus! {

/// One lexical unit of the source.
#[derive(Copy, Clone, Eq, PartialEq, Debug)]
pub enum Token {
    /// A run of decimal digits, holding the number it denotes.
    LiteralInt(i32),
    /// The plus sign.
    SymPlus,
    /// The minus sign.
    SymMinus,
    /// A line feed.
    NewLine,
    /// The end of the source; the lexer reports it, a token stream never
    /// holds it.
    EndOfFile,
}

} // verus!
