use arithcc::compile::{compile, CompileError};
use arithcc::grammar::GrammarViolation;
use arithcc::lexer::LexerErrorInner;
use arithcc::position::{Pointed, SourcePosition};
use arithcc::token::Token;

fn program(body: &[&str]) -> Vec<String> {
    let mut lines = vec![
        String::from(".intel_syntax noprefix"),
        String::from(".globl main"),
        String::from("main:"),
    ];
    for line in body {
        lines.push(String::from(*line));
    }
    lines.push(String::from("  ret"));
    lines
}

/// Runs the lines of a program as a 32-bit machine would: `mov` loads, `add`
/// and `sub` wrap around.
fn execute(lines: &[String]) -> i32 {
    let mut accumulator: i32 = 0;
    for line in lines {
        let words: Vec<&str> = line.split_whitespace().collect();
        if words.len() == 3 && words[1] == "rax," {
            let operand: i32 = words[2].parse().unwrap();
            match words[0] {
                "mov" => accumulator = operand,
                "add" => accumulator = accumulator.wrapping_add(operand),
                "sub" => accumulator = accumulator.wrapping_sub(operand),
                other => panic!("unknown instruction {}", other),
            }
        }
    }
    accumulator
}

#[test]
fn chain_compiles_to_its_program() {
    assert_eq!(
        compile("5+20-4").unwrap(),
        program(&["  mov rax, 5", "  add rax, 20", "  sub rax, 4"])
    );
}

#[test]
fn single_number_is_loaded_as_it_is() {
    assert_eq!(compile("42").unwrap(), program(&["  mov rax, 42"]));
    assert_eq!(compile("0").unwrap(), program(&["  mov rax, 0"]));
    assert_eq!(compile("2147483647").unwrap(), program(&["  mov rax, 2147483647"]));
}

#[test]
fn blanks_in_front_of_a_number_do_not_change_the_load() {
    assert_eq!(compile("   7").unwrap(), program(&["  mov rax, 7"]));
    assert_eq!(compile("\t \t123").unwrap(), program(&["  mov rax, 123"]));
}

#[test]
fn leading_zeros_are_not_written_back() {
    assert_eq!(compile("007+010").unwrap(), program(&["  mov rax, 7", "  add rax, 10"]));
}

#[test]
fn written_number_is_read_back_as_the_same_number() {
    for value in [0, 1, 9, 10, 42, 99, 100, 65536, 2147483646, i32::MAX] {
        let source = format!("{}", value);
        let lines = compile(&source).unwrap();
        assert_eq!(lines[3], format!("  mov rax, {}", source));
        assert_eq!(execute(&lines), value);
    }
}

#[test]
fn whitespace_between_tokens_does_not_change_the_program() {
    let expected = program(&["  mov rax, 1", "  add rax, 2"]);
    assert_eq!(compile("1 + 2").unwrap(), expected);
    assert_eq!(compile("1+2").unwrap(), expected);
    assert_eq!(compile("1  +  2").unwrap(), expected);
}

#[test]
fn program_computes_the_chain_from_left_to_right() {
    assert_eq!(execute(&compile("5+20-4").unwrap()), 21);
    assert_eq!(execute(&compile("1-2-3").unwrap()), -4);
    assert_eq!(execute(&compile("10 - 20 + 5").unwrap()), -5);
    assert_eq!(execute(&compile("0-2147483647-1").unwrap()), i32::MIN);
}

#[test]
fn program_wraps_around_as_a_32_bit_register_does() {
    assert_eq!(execute(&compile("2147483647+1").unwrap()), i32::MIN);
    assert_eq!(execute(&compile("2147483647+2147483647+2").unwrap()), 0);
    assert_eq!(execute(&compile("0-2147483647-2").unwrap()), i32::MAX);
}

#[test]
fn empty_source_breaks_the_grammar_and_is_no_lexing_error() {
    match compile("") {
        Err(CompileError::Grammar(error)) => {
            assert_eq!(error.kind, GrammarViolation::MissingFirstLiteral);
            assert_eq!(error.found, None);
        }
        other => panic!("unexpected outcome {:?}", other),
    }
}

#[test]
fn digits_above_i32_are_a_lexing_error() {
    match compile("2147483648") {
        Err(CompileError::Lexing(error)) => {
            assert!(matches!(error.inner, LexerErrorInner::InvalidInt(_)));
            assert_eq!(error.lexer_occurrence_position.0, 0);
        }
        other => panic!("unexpected outcome {:?}", other),
    }
    assert!(matches!(compile("123456789012345678901234567890"), Err(CompileError::Lexing(_))));
}

#[test]
fn invalid_byte_is_a_lexing_error_at_its_offset() {
    match compile("3$") {
        Err(CompileError::Lexing(error)) => {
            assert!(matches!(error.inner, LexerErrorInner::InvalidByte(b'$')));
            assert_eq!(
                error.lexer_occurrence_position,
                (1, SourcePosition { line: 1, column: 2 })
            );
        }
        other => panic!("unexpected outcome {:?}", other),
    }
}

#[test]
fn sign_in_front_breaks_the_grammar() {
    match compile("+5") {
        Err(CompileError::Grammar(error)) => {
            assert_eq!(error.kind, GrammarViolation::MissingFirstLiteral);
            assert_eq!(
                error.found,
                Some(Pointed {
                    position: SourcePosition { line: 1, column: 1 },
                    data: Token::SymPlus
                })
            );
        }
        other => panic!("unexpected outcome {:?}", other),
    }
}

#[test]
fn sign_at_the_end_breaks_the_grammar() {
    match compile("10+") {
        Err(CompileError::Grammar(error)) => {
            assert_eq!(error.kind, GrammarViolation::MissingRightOperandOfPlus);
            assert_eq!(error.found, None);
        }
        other => panic!("unexpected outcome {:?}", other),
    }
    match compile("10 - ") {
        Err(CompileError::Grammar(error)) => {
            assert_eq!(error.kind, GrammarViolation::MissingRightOperandOfMinus);
            assert_eq!(error.found, None);
        }
        other => panic!("unexpected outcome {:?}", other),
    }
}

#[test]
fn lexing_error_comes_before_a_grammar_error() {
    assert!(matches!(compile("+ 5 $"), Err(CompileError::Lexing(_))));
    assert!(matches!(compile("1 1 99999999999"), Err(CompileError::Lexing(_))));
}

#[test]
fn line_feed_in_a_chain_breaks_the_grammar() {
    match compile("1\n+2") {
        Err(CompileError::Grammar(error)) => {
            assert_eq!(error.kind, GrammarViolation::UnexpectedToken);
            assert_eq!(
                error.found,
                Some(Pointed {
                    position: SourcePosition { line: 1, column: 2 },
                    data: Token::NewLine
                })
            );
        }
        other => panic!("unexpected outcome {:?}", other),
    }
}
