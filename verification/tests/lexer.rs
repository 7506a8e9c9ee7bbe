use arithcc::lexer::{Lexer, LexerErrorInner};
use arithcc::position::{Pointed, SourcePosition};
use arithcc::token::Token;

fn at(line: usize, column: usize, data: Token) -> Pointed<Token> {
    Pointed { position: SourcePosition { line, column }, data }
}

fn kinds(source: &str) -> Vec<Token> {
    let mut lexer = Lexer::new(source);
    let mut found = Vec::new();
    loop {
        match lexer.next_token() {
            Ok(Token::EndOfFile) => return found,
            Ok(token) => found.push(token),
            Err(error) => panic!("no token: {:?}", error),
        }
    }
}

#[test]
fn new_lexer_stands_at_the_start() {
    let lexer = Lexer::new("12+3");
    assert_eq!(lexer.byte_pos(), 0);
    assert_eq!(lexer.current(), SourcePosition { line: 1, column: 1 });
    assert_eq!(lexer.rest(), "12+3");
}

#[test]
fn next_token_reads_numbers_and_signs_in_order() {
    assert_eq!(
        kinds("5+20-4"),
        vec![
            Token::LiteralInt(5),
            Token::SymPlus,
            Token::LiteralInt(20),
            Token::SymMinus,
            Token::LiteralInt(4),
        ]
    );
}

#[test]
fn next_token_moves_behind_the_token() {
    let mut lexer = Lexer::new("120 +\t7");
    assert_eq!(lexer.next_token().unwrap(), Token::LiteralInt(120));
    assert_eq!(lexer.byte_pos(), 3);
    assert_eq!(lexer.current(), SourcePosition { line: 1, column: 4 });
    assert_eq!(lexer.rest(), " +\t7");
    assert_eq!(lexer.next_token().unwrap(), Token::SymPlus);
    assert_eq!(lexer.byte_pos(), 5);
    assert_eq!(lexer.current(), SourcePosition { line: 1, column: 6 });
    assert_eq!(lexer.next_token().unwrap(), Token::LiteralInt(7));
    assert_eq!(lexer.byte_pos(), 7);
    assert_eq!(lexer.current(), SourcePosition { line: 1, column: 8 });
    assert_eq!(lexer.rest(), "");
}

#[test]
fn end_of_file_is_reported_again_and_again_without_moving() {
    let mut lexer = Lexer::new("1");
    assert_eq!(lexer.next_token().unwrap(), Token::LiteralInt(1));
    assert_eq!(lexer.next_token().unwrap(), Token::EndOfFile);
    assert_eq!(lexer.next_token().unwrap(), Token::EndOfFile);
    assert_eq!(lexer.byte_pos(), 1);
    assert_eq!(lexer.current(), SourcePosition { line: 1, column: 2 });
}

#[test]
fn empty_source_is_at_its_end() {
    let mut lexer = Lexer::new("");
    assert_eq!(lexer.next().unwrap(), at(1, 1, Token::EndOfFile));
    assert_eq!(lexer.byte_pos(), 0);
}

#[test]
fn blanks_at_the_end_are_skipped_before_the_end_is_reported() {
    let mut lexer = Lexer::new("1 \t ");
    assert_eq!(lexer.next().unwrap(), at(1, 1, Token::LiteralInt(1)));
    assert_eq!(lexer.next().unwrap(), at(1, 5, Token::EndOfFile));
    assert_eq!(lexer.byte_pos(), 4);
    assert_eq!(kinds("   "), vec![]);
}

#[test]
fn next_pairs_each_token_with_the_position_of_its_first_byte() {
    let mut lexer = Lexer::new("  12 +  3");
    assert_eq!(lexer.next().unwrap(), at(1, 3, Token::LiteralInt(12)));
    assert_eq!(lexer.next().unwrap(), at(1, 6, Token::SymPlus));
    assert_eq!(lexer.next().unwrap(), at(1, 9, Token::LiteralInt(3)));
    assert_eq!(lexer.next().unwrap(), at(1, 10, Token::EndOfFile));
}

#[test]
fn line_feed_is_a_token_and_starts_a_new_line() {
    let mut lexer = Lexer::new("1\n +22\n\n3");
    assert_eq!(lexer.next().unwrap(), at(1, 1, Token::LiteralInt(1)));
    assert_eq!(lexer.next().unwrap(), at(1, 2, Token::NewLine));
    assert_eq!(lexer.current(), SourcePosition { line: 2, column: 1 });
    assert_eq!(lexer.next().unwrap(), at(2, 2, Token::SymPlus));
    assert_eq!(lexer.next().unwrap(), at(2, 3, Token::LiteralInt(22)));
    assert_eq!(lexer.next().unwrap(), at(2, 5, Token::NewLine));
    assert_eq!(lexer.next().unwrap(), at(3, 1, Token::NewLine));
    assert_eq!(lexer.next().unwrap(), at(4, 1, Token::LiteralInt(3)));
    assert_eq!(lexer.byte_pos(), 9);
}

#[test]
fn byte_that_starts_no_token_is_an_error_and_the_lexer_stays_in_front_of_it() {
    let mut lexer = Lexer::new("3$");
    assert_eq!(lexer.next_token().unwrap(), Token::LiteralInt(3));
    assert!(matches!(lexer.next_token(), Err(LexerErrorInner::InvalidByte(b'$'))));
    assert_eq!(lexer.byte_pos(), 1);
    assert_eq!(lexer.current(), SourcePosition { line: 1, column: 2 });
    assert!(matches!(lexer.next(), Err(LexerErrorInner::InvalidByte(b'$'))));
    assert_eq!(lexer.rest(), "$");
}

#[test]
fn blanks_in_front_of_an_invalid_byte_are_skipped() {
    let mut lexer = Lexer::new("  *");
    assert!(matches!(lexer.next(), Err(LexerErrorInner::InvalidByte(b'*'))));
    assert_eq!(lexer.byte_pos(), 2);
    assert_eq!(lexer.current(), SourcePosition { line: 1, column: 3 });
}

#[test]
fn other_control_bytes_and_letters_are_invalid() {
    assert!(matches!(Lexer::new("\r").next_token(), Err(LexerErrorInner::InvalidByte(0x0d))));
    assert!(matches!(Lexer::new("\0").next_token(), Err(LexerErrorInner::InvalidByte(0))));
    assert!(matches!(Lexer::new("x").next_token(), Err(LexerErrorInner::InvalidByte(b'x'))));
    assert!(matches!(Lexer::new("(").next_token(), Err(LexerErrorInner::InvalidByte(b'('))));
}

#[test]
fn byte_outside_ascii_is_invalid() {
    let mut lexer = Lexer::new("1あ");
    assert_eq!(lexer.next_token().unwrap(), Token::LiteralInt(1));
    assert!(matches!(lexer.next_token(), Err(LexerErrorInner::InvalidByte(0xe3))));
    assert_eq!(lexer.byte_pos(), 1);
    assert_eq!(lexer.rest(), "あ");
}

#[test]
fn number_above_i32_is_an_error_and_the_lexer_stays_in_front_of_it() {
    let mut lexer = Lexer::new("1+2147483648");
    assert_eq!(lexer.next_token().unwrap(), Token::LiteralInt(1));
    assert_eq!(lexer.next_token().unwrap(), Token::SymPlus);
    assert!(matches!(lexer.next_token(), Err(LexerErrorInner::InvalidInt(_))));
    assert_eq!(lexer.byte_pos(), 2);
    assert_eq!(lexer.current(), SourcePosition { line: 1, column: 3 });
}

#[test]
fn largest_i32_is_a_number() {
    assert_eq!(kinds("2147483647"), vec![Token::LiteralInt(i32::MAX)]);
    assert_eq!(kinds("0002147483647"), vec![Token::LiteralInt(i32::MAX)]);
}

#[test]
fn advance_on_same_line_moves_offset_and_column() {
    let mut lexer = Lexer::new("12+3\n4");
    lexer.advance_on_same_line(3);
    assert_eq!(lexer.byte_pos(), 3);
    assert_eq!(lexer.current(), SourcePosition { line: 1, column: 4 });
    assert_eq!(lexer.rest(), "3\n4");
    lexer.advance_on_same_line(0);
    assert_eq!(lexer.byte_pos(), 3);
    assert_eq!(lexer.next_token().unwrap(), Token::LiteralInt(3));
}

#[test]
fn whitespace_between_tokens_does_not_change_them() {
    let expected = vec![Token::LiteralInt(1), Token::SymPlus, Token::LiteralInt(2)];
    assert_eq!(kinds("1 + 2"), expected);
    assert_eq!(kinds("1+2"), expected);
    assert_eq!(kinds("1  +  2"), expected);
    assert_eq!(kinds("\t1+\t2 "), expected);
}

#[test]
fn whitespace_between_digits_separates_numbers() {
    assert_eq!(kinds("12"), vec![Token::LiteralInt(12)]);
    assert_eq!(kinds("1 2"), vec![Token::LiteralInt(1), Token::LiteralInt(2)]);
}

#[test]
fn positions_are_ordered_by_line_then_column() {
    let early = SourcePosition { line: 1, column: 9 };
    let late = SourcePosition { line: 2, column: 1 };
    assert!(early < late);
    assert!(SourcePosition { line: 2, column: 1 } < SourcePosition { line: 2, column: 2 });
    assert_eq!(early.max(late), late);
    assert_eq!(early, SourcePosition { line: 1, column: 9 });
}
