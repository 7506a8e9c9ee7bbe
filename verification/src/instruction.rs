//! The instructions that a chain of additions and subtractions turns into,
//! and how they are written in assembly.

use crate::text::{ascii_text, push_signed_decimal, signed_decimal};
use vstd::prelude::*;
use vstd::string::StringExecFns;

verus! {

/// One step of the computation. Every step works on the accumulator, the
/// register `rax`, with a constant operand.
#[derive(Copy, Clone, Eq, PartialEq, Debug)]
pub enum Instruction {
    /// Load the operand into the accumulator.
    MovImm(i32),
    /// Add the operand to the accumulator.
    AddImm(i32),
    /// Subtract the operand from the accumulator.
    SubImm(i32),
}

impl Instruction {
    /// The operand of the instruction.
    pub open spec fn operand(self) -> i32 {
        match self {
            Instruction::MovImm(value) => value,
            Instruction::AddImm(value) => value,
            Instruction::SubImm(value) => value,
        }
    }

    /// The mnemonic and the register, up to the place of the operand.
    pub open spec fn opening(self) -> Seq<char> {
        match self {
            Instruction::MovImm(_) => "  mov rax, "@,
            Instruction::AddImm(_) => "  add rax, "@,
            Instruction::SubImm(_) => "  sub rax, "@,
        }
    }

    /// The assembly line of the instruction: the opening, then the operand
    /// in decimal.
    pub open spec fn text(self) -> Seq<char> {
        self.opening() + ascii_text(signed_decimal(self.operand() as int))
    }

    /// Writes the instruction as a line of assembly.
    pub fn render(&self) -> (line: String)
        ensures
            line@ == self.text(),
    {
        let (opening, operand) = match self {
            Instruction::MovImm(value) => ("  mov rax, ", *value),
            Instruction::AddImm(value) => ("  add rax, ", *value),
            Instruction::SubImm(value) => ("  sub rax, ", *value),
        };
        let mut line = String::from_str(opening);
        push_signed_decimal(&mut line, operand);
        line
    }
}

/// The texts of a sequence of instructions, one line each.
pub open spec fn instruction_lines(instructions: Seq<Instruction>) -> Seq<Seq<char>> {
    Seq::new(instructions.len(), |i: int| instructions[i].text())
}

/// The lines in front of the instructions: the syntax directive, the export
/// of the entry symbol, and its label.
pub open spec fn preamble() -> Seq<Seq<char>> {
    seq![".intel_syntax noprefix"@, ".globl main"@, "main:"@]
}

/// The line that ends the program.
pub open spec fn return_line() -> Seq<char> {
    "  ret"@
}

/// The whole program for a sequence of instructions: preamble, one line for
/// each instruction, and the return.
pub open spec fn program_text(instructions: Seq<Instruction>) -> Seq<Seq<char>> {
    preamble() + instruction_lines(instructions) + seq![return_line()]
}

/// The value that `value` has in a 32-bit register, read as a signed number.
pub open spec fn wrap32(value: int) -> int {
    (value + 0x8000_0000) % 0x1_0000_0000 - 0x8000_0000
}

/// The accumulator after one instruction.
pub open spec fn step(accumulator: int, instruction: Instruction) -> int {
    match instruction {
        Instruction::MovImm(value) => value as int,
        Instruction::AddImm(value) => wrap32(accumulator + value),
        Instruction::SubImm(value) => wrap32(accumulator - value),
    }
}

/// The accumulator, read as a signed 32-bit number, after the instructions
/// have run in order on a cleared accumulator.
pub open spec fn run(instructions: Seq<Instruction>) -> int
    decreases instructions.len(),
{
    if instructions.len() == 0 {
        0
    } else {
        step(run(instructions.drop_last()), instructions.last())
    }
}

} // verus!
