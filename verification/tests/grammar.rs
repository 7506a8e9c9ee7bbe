use arithcc::grammar::{parse_chain, GrammarError, GrammarViolation};
use arithcc::instruction::Instruction;
use arithcc::lexer::Lexer;
use arithcc::position::{Pointed, SourcePosition};
use arithcc::token::Token;
use arithcc::token_stream::TokenStream;

fn at(line: usize, column: usize, data: Token) -> Pointed<Token> {
    Pointed { position: SourcePosition { line, column }, data }
}

fn stream(source: &str) -> TokenStream {
    TokenStream::try_from(Lexer::new(source)).unwrap()
}

fn parse(source: &str) -> Result<Vec<Instruction>, GrammarError> {
    parse_chain(&mut stream(source))
}

#[test]
fn chain_becomes_one_instruction_for_each_number() {
    assert_eq!(
        parse("5+20-4").unwrap(),
        vec![Instruction::MovImm(5), Instruction::AddImm(20), Instruction::SubImm(4)]
    );
}

#[test]
fn single_number_is_a_chain() {
    assert_eq!(parse("42").unwrap(), vec![Instruction::MovImm(42)]);
    assert_eq!(parse("  \t42").unwrap(), vec![Instruction::MovImm(42)]);
    assert_eq!(parse("0").unwrap(), vec![Instruction::MovImm(0)]);
    assert_eq!(parse("2147483647").unwrap(), vec![Instruction::MovImm(i32::MAX)]);
}

#[test]
fn chain_is_read_from_left_to_right() {
    assert_eq!(
        parse("1-2-3+4").unwrap(),
        vec![
            Instruction::MovImm(1),
            Instruction::SubImm(2),
            Instruction::SubImm(3),
            Instruction::AddImm(4),
        ]
    );
}

#[test]
fn successful_parse_reads_the_whole_stream() {
    let mut tokens = stream("1+2");
    assert!(parse_chain(&mut tokens).is_ok());
    assert_eq!(tokens.peek(), None);
}

#[test]
fn empty_stream_misses_the_first_number() {
    let error = parse("").unwrap_err();
    assert_eq!(error.kind, GrammarViolation::MissingFirstLiteral);
    assert_eq!(error.found, None);
}

#[test]
fn sign_at_the_start_is_no_first_number() {
    let error = parse("+5").unwrap_err();
    assert_eq!(error.kind, GrammarViolation::MissingFirstLiteral);
    assert_eq!(error.found, Some(at(1, 1, Token::SymPlus)));
    let minus = parse("-5").unwrap_err();
    assert_eq!(minus.kind, GrammarViolation::MissingFirstLiteral);
    assert_eq!(minus.found, Some(at(1, 1, Token::SymMinus)));
}

#[test]
fn line_feed_at_the_start_is_no_first_number() {
    let error = parse("\n5").unwrap_err();
    assert_eq!(error.kind, GrammarViolation::MissingFirstLiteral);
    assert_eq!(error.found, Some(at(1, 1, Token::NewLine)));
}

#[test]
fn plus_at_the_end_misses_its_operand() {
    let error = parse("10+").unwrap_err();
    assert_eq!(error.kind, GrammarViolation::MissingRightOperandOfPlus);
    assert_eq!(error.found, None);
}

#[test]
fn minus_at_the_end_misses_its_operand() {
    let error = parse("10-").unwrap_err();
    assert_eq!(error.kind, GrammarViolation::MissingRightOperandOfMinus);
    assert_eq!(error.found, None);
}

#[test]
fn sign_after_a_sign_is_no_operand() {
    let error = parse("1+-2").unwrap_err();
    assert_eq!(error.kind, GrammarViolation::MissingRightOperandOfPlus);
    assert_eq!(error.found, Some(at(1, 3, Token::SymMinus)));
    let other = parse("1 - + 2").unwrap_err();
    assert_eq!(other.kind, GrammarViolation::MissingRightOperandOfMinus);
    assert_eq!(other.found, Some(at(1, 5, Token::SymPlus)));
}

#[test]
fn two_numbers_in_a_row_are_unexpected() {
    let error = parse("1 2").unwrap_err();
    assert_eq!(error.kind, GrammarViolation::UnexpectedToken);
    assert_eq!(error.found, Some(at(1, 3, Token::LiteralInt(2))));
}

#[test]
fn line_feed_inside_a_chain_is_unexpected() {
    let error = parse("1\n+2").unwrap_err();
    assert_eq!(error.kind, GrammarViolation::UnexpectedToken);
    assert_eq!(error.found, Some(at(1, 2, Token::NewLine)));
    let after_sign = parse("1+\n2").unwrap_err();
    assert_eq!(after_sign.kind, GrammarViolation::MissingRightOperandOfPlus);
    assert_eq!(after_sign.found, Some(at(1, 3, Token::NewLine)));
    let at_end = parse("1+2\n").unwrap_err();
    assert_eq!(at_end.kind, GrammarViolation::UnexpectedToken);
    assert_eq!(at_end.found, Some(at(1, 4, Token::NewLine)));
}

#[test]
fn failed_parse_stops_behind_the_token_at_fault() {
    let mut tokens = stream("1 2 + 3");
    assert!(parse_chain(&mut tokens).is_err());
    assert_eq!(tokens.peek(), Some(&at(1, 5, Token::SymPlus)));
    let mut short = stream("1 +");
    assert!(parse_chain(&mut short).is_err());
    assert_eq!(short.peek(), None);
}

#[test]
fn parse_starts_at_the_cursor() {
    let mut tokens = stream("+ 1 - 2");
    assert_eq!(tokens.next(), Some(&at(1, 1, Token::SymPlus)));
    assert_eq!(
        parse_chain(&mut tokens).unwrap(),
        vec![Instruction::MovImm(1), Instruction::SubImm(2)]
    );
}
