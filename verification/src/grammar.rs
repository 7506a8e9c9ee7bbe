//! The grammar `number (('+' | '-') number)*` and the instructions that a
//! chain of tokens that follows it stands for.

use crate::instruction::Instruction;
use crate::position::Pointed;
use crate::token::Token;
use crate::token_stream::TokenStream;
use vstd::prelude::*;

verus! {

/// The ways in which a token sequence can break the grammar.
#[derive(Copy, Clone, Eq, PartialEq, Debug)]
pub enum GrammarViolation {
    /// The sequence does not start with a number.
    MissingFirstLiteral,
    /// A plus sign is not followed by a number.
    MissingRightOperandOfPlus,
    /// A minus sign is not followed by a number.
    MissingRightOperandOfMinus,
    /// Where a sign or the end was due, there is another token.
    UnexpectedToken,
}

/// A violation of the grammar and the token at which it showed.
#[derive(Debug)]
pub struct GrammarError {
    /// Which rule was broken.
    pub kind: GrammarViolation,
    /// The token that stands where another was due; `None` if the tokens
    /// ended there.
    pub found: Option<Pointed<Token>>,
}

/// A violation of the grammar and the index, in the token sequence, of the
/// token at which it showed; the index is the length of the sequence if the
/// tokens ended there.
pub struct ChainFault {
    pub kind: GrammarViolation,
    pub at: int,
}

/// Tells whether the token at `index` is a number.
pub open spec fn is_literal_at(tokens: Seq<Token>, index: int) -> bool {
    0 <= index < tokens.len() && tokens[index] is LiteralInt
}

/// The number that the token at `index` holds.
pub open spec fn literal_at(tokens: Seq<Token>, index: int) -> i32 {
    tokens[index]->LiteralInt_0
}

/// Reads pairs of a sign and a number from `from` to the end of `tokens`
/// and adds one instruction for each pair to `done`. The first token that
/// does not fit ends the reading with a fault.
pub open spec fn terms_from(tokens: Seq<Token>, from: int, done: Seq<Instruction>) -> Result<
    Seq<Instruction>,
    ChainFault,
>
    decreases tokens.len() - from,
{
    if from < 0 || from >= tokens.len() {
        Ok(done)
    } else {
        match tokens[from] {
            Token::SymPlus => {
                if is_literal_at(tokens, from + 1) {
                    terms_from(
                        tokens,
                        from + 2,
                        done.push(Instruction::AddImm(literal_at(tokens, from + 1))),
                    )
                } else {
                    Err(ChainFault { kind: GrammarViolation::MissingRightOperandOfPlus, at: from + 1 })
                }
            },
            Token::SymMinus => {
                if is_literal_at(tokens, from + 1) {
                    terms_from(
                        tokens,
                        from + 2,
                        done.push(Instruction::SubImm(literal_at(tokens, from + 1))),
                    )
                } else {
                    Err(
                        ChainFault { kind: GrammarViolation::MissingRightOperandOfMinus, at: from + 1 },
                    )
                }
            },
            _ => Err(ChainFault { kind: GrammarViolation::UnexpectedToken, at: from }),
        }
    }
}

/// The instructions for a token sequence that follows the grammar: a load
/// of the first number, then an addition or a subtraction for each pair of
/// a sign and a number. For any other sequence, the first fault from the
/// left.
pub open spec fn chain_instructions(tokens: Seq<Token>) -> Result<Seq<Instruction>, ChainFault> {
    if is_literal_at(tokens, 0) {
        terms_from(tokens, 1, seq![Instruction::MovImm(literal_at(tokens, 0))])
    } else {
        Err(ChainFault { kind: GrammarViolation::MissingFirstLiteral, at: 0 })
    }
}

/// The value of the chain whose signs and numbers stand from `from` on,
/// worked out from left to right in whole numbers, starting from `value`.
pub open spec fn evaluate_from(tokens: Seq<Token>, from: int, value: int) -> int
    decreases tokens.len() - from,
{
    if from < 0 || from + 1 >= tokens.len() {
        value
    } else {
        match tokens[from] {
            Token::SymPlus => evaluate_from(tokens, from + 2, value + literal_at(tokens, from + 1)),
            Token::SymMinus => evaluate_from(
                tokens,
                from + 2,
                value - literal_at(tokens, from + 1),
            ),
            _ => value,
        }
    }
}

/// The value of a chain that follows the grammar, worked out from left to
/// right in whole numbers, without regard to the width of a register.
pub open spec fn chain_value(tokens: Seq<Token>) -> int {
    evaluate_from(tokens, 1, literal_at(tokens, 0) as int)
}

/// The tokens without their positions.
pub open spec fn token_data(tokens: Seq<Pointed<Token>>) -> Seq<Token> {
    Seq::new(tokens.len(), |i: int| tokens[i].data)
}

/// The token at `index`, or `None` if the tokens end before it.
pub open spec fn token_at(tokens: Seq<Pointed<Token>>, index: int) -> Option<Pointed<Token>> {
    if 0 <= index < tokens.len() {
        Some(tokens[index])
    } else {
        None
    }
}

impl GrammarError {
    /// This error tells of `fault`, met in `tokens`: it has the kind of the
    /// fault and the token at the index of the fault.
    pub open spec fn reports(&self, tokens: Seq<Pointed<Token>>, fault: ChainFault) -> bool {
        self.kind == fault.kind && self.found == token_at(tokens, fault.at)
    }
}

/// A copy of a token with its position.
fn copy_token(token: &Pointed<Token>) -> (copy: Pointed<Token>)
    ensures
        copy == *token,
{
    Pointed { position: token.position, data: token.data }
}

/// Reads the next token of the stream and returns the number it holds.
/// Any other token, and the end of the stream, is returned as what was found
/// in place of a number.
fn next_literal(tokens: &mut TokenStream) -> (r: Result<i32, Option<Pointed<Token>>>)
    ensures
        final(tokens).tokens() == old(tokens).tokens(),
        0 <= old(tokens).cursor() <= old(tokens).tokens().len(),
        final(tokens).cursor() == if old(tokens).cursor() < old(tokens).tokens().len() {
            old(tokens).cursor() + 1
        } else {
            old(tokens).cursor()
        },
        match r {
            Ok(value) => is_literal_at(token_data(old(tokens).tokens()), old(tokens).cursor())
                && value == literal_at(token_data(old(tokens).tokens()), old(tokens).cursor()),
            Err(found) => !is_literal_at(token_data(old(tokens).tokens()), old(tokens).cursor())
                && found == token_at(old(tokens).tokens(), old(tokens).cursor()),
        },
{
    match tokens.next() {
        Some(token) => match token.data {
            Token::LiteralInt(value) => Ok(value),
            _ => Err(Some(copy_token(token))),
        },
        None => Err(None),
    }
}

/// Reads the rest of the stream as a chain and returns its instructions.
///
/// The stream must hold, from its cursor on, a number followed by pairs of a
/// sign and a number. The first token that does not fit makes the call
/// fail; the error names the broken rule and holds that token. The stream is
/// read up to its end or, on failure, up to and including the token at
/// fault.
pub fn parse_chain(tokens: &mut TokenStream) -> (r: Result<Vec<Instruction>, GrammarError>)
    ensures
        final(tokens).tokens() == old(tokens).tokens(),
        match chain_instructions(token_data(old(tokens).remaining())) {
            Ok(instructions) => {
                &&& r matches Ok(built)
                &&& built@ == instructions
                &&& final(tokens).remaining().len() == 0
            },
            Err(fault) => {
                &&& r matches Err(error)
                &&& error.reports(old(tokens).remaining(), fault)
                &&& final(tokens).remaining() == old(tokens).remaining().skip(
                    if fault.at < old(tokens).remaining().len() {
                        fault.at + 1
                    } else {
                        fault.at
                    },
                )
            },
        },
{
    let ghost all = tokens.tokens();
    let ghost base = tokens.cursor();
    let ghost chain = token_data(tokens.remaining());
    let first = match next_literal(tokens) {
        Ok(value) => value,
        Err(found) => {
            assert(tokens.remaining() =~= old(tokens).remaining().skip(
                if 0 < old(tokens).remaining().len() {
                    1int
                } else {
                    0int
                },
            ));
            return Err(GrammarError { kind: GrammarViolation::MissingFirstLiteral, found });
        },
    };
    let mut built: Vec<Instruction> = Vec::new();
    built.push(Instruction::MovImm(first));
    assert(built@ =~= seq![Instruction::MovImm(first)]);
    loop
        invariant
            all == old(tokens).tokens(),
            base == old(tokens).cursor(),
            chain == token_data(old(tokens).remaining()),
            tokens.tokens() == all,
            0 <= base < tokens.cursor() <= all.len(),
            chain_instructions(chain) == terms_from(chain, tokens.cursor() - base, built@),
        ensures
            tokens.tokens() == all,
            tokens.remaining().len() == 0,
            chain_instructions(chain) == Ok::<Seq<Instruction>, ChainFault>(built@),
        decreases all.len() - tokens.cursor(),
    {
        let sign = match tokens.next() {
            Some(token) => copy_token(token),
            None => {
                break ;
            },
        };
        match sign.data {
            Token::SymPlus => {
                match next_literal(tokens) {
                    Ok(value) => {
                        built.push(Instruction::AddImm(value));
                    },
                    Err(found) => {
                        assert(tokens.remaining() =~= old(tokens).remaining().skip(
                            tokens.cursor() - base,
                        ));
                        return Err(
                            GrammarError {
                                kind: GrammarViolation::MissingRightOperandOfPlus,
                                found,
                            },
                        );
                    },
                }
            },
            Token::SymMinus => {
                match next_literal(tokens) {
                    Ok(value) => {
                        built.push(Instruction::SubImm(value));
                    },
                    Err(found) => {
                        assert(tokens.remaining() =~= old(tokens).remaining().skip(
                            tokens.cursor() - base,
                        ));
                        return Err(
                            GrammarError {
                                kind: GrammarViolation::MissingRightOperandOfMinus,
                                found,
                            },
                        );
                    },
                }
            },
            _ => {
                assert(tokens.remaining() =~= old(tokens).remaining().skip(
                    tokens.cursor() - base,
                ));
                return Err(
                    GrammarError { kind: GrammarViolation::UnexpectedToken, found: Some(sign) },
                );
            },
        }
    }
    Ok(built)
}

} // verus!
