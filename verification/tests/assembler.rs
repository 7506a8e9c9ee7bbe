use arithcc::assembler::Assembler;
use arithcc::instruction::Instruction;

#[test]
fn new_assembler_holds_no_line() {
    let assembler = Assembler::new();
    assert!(assembler.lines().is_empty());
    assert!(Assembler::new().into_lines().is_empty());
}

#[test]
fn emit_appends_lines_in_order() {
    let mut assembler = Assembler::new();
    assembler.emit(String::from("main:"));
    assembler.emit(String::from("  ret"));
    assert_eq!(assembler.lines(), &vec![String::from("main:"), String::from("  ret")]);
    assembler.emit(String::new());
    assert_eq!(assembler.into_lines(), vec!["main:", "  ret", ""]);
}

#[test]
fn instructions_are_written_with_their_operand_in_decimal() {
    assert_eq!(Instruction::MovImm(42).render(), "  mov rax, 42");
    assert_eq!(Instruction::AddImm(20).render(), "  add rax, 20");
    assert_eq!(Instruction::SubImm(4).render(), "  sub rax, 4");
    assert_eq!(Instruction::MovImm(0).render(), "  mov rax, 0");
    assert_eq!(Instruction::AddImm(10).render(), "  add rax, 10");
    assert_eq!(Instruction::SubImm(1000000).render(), "  sub rax, 1000000");
    assert_eq!(Instruction::MovImm(i32::MAX).render(), "  mov rax, 2147483647");
}

#[test]
fn negative_operands_are_written_with_a_minus_sign() {
    assert_eq!(Instruction::MovImm(-5).render(), "  mov rax, -5");
    assert_eq!(Instruction::AddImm(-10).render(), "  add rax, -10");
    assert_eq!(Instruction::SubImm(i32::MIN).render(), "  sub rax, -2147483648");
}

#[test]
fn program_is_framed_by_preamble_and_return() {
    let mut assembler = Assembler::new();
    assembler.emit_program(&vec![Instruction::MovImm(5), Instruction::AddImm(20)]);
    assert_eq!(
        assembler.into_lines(),
        vec![
            ".intel_syntax noprefix",
            ".globl main",
            "main:",
            "  mov rax, 5",
            "  add rax, 20",
            "  ret",
        ]
    );
}

#[test]
fn program_without_instructions_is_the_frame_alone() {
    let mut assembler = Assembler::new();
    assembler.emit_program(&Vec::new());
    assert_eq!(
        assembler.into_lines(),
        vec![".intel_syntax noprefix", ".globl main", "main:", "  ret"]
    );
}

#[test]
fn program_is_appended_to_what_was_emitted_before() {
    let mut assembler = Assembler::new();
    assembler.emit(String::from("# first"));
    assembler.emit_program(&vec![Instruction::MovImm(1)]);
    let lines = assembler.into_lines();
    assert_eq!(lines.len(), 6);
    assert_eq!(lines[0], "# first");
    assert_eq!(lines[4], "  mov rax, 1");
}
