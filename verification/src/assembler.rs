//! The assembler: the sink that collects the lines of the program.

use crate::instruction::{instruction_lines, preamble, program_text, Instruction};
use vstd::prelude::*;
use vstd::string::StringExecFns;

verus! {

/// Collects assembly lines in the order in which they are emitted. A line
/// that was emitted is never changed or taken back.
pub struct Assembler {
    lines: Vec<String>,
}

impl View for Assembler {
    type V = Seq<Seq<char>>;

    /// The lines emitted so far.
    closed spec fn view(&self) -> Seq<Seq<char>> {
        self.lines.deep_view()
    }
}

impl Assembler {
    /// An assembler that holds no line.
    pub fn new() -> (assembler: Self)
        ensures
            assembler@ == Seq::<Seq<char>>::empty(),
    {
        let assembler = Self { lines: Vec::new() };
        assert(assembler@ =~= Seq::<Seq<char>>::empty());
        assembler
    }

    /// Appends one line.
    pub fn emit(&mut self, assembly_line: String)
        ensures
            final(self)@ == old(self)@.push(assembly_line@),
    {
        self.lines.push(assembly_line);
        assert(self@ =~= old(self)@.push(assembly_line@));
    }

    /// Appends the whole program for `instructions`: the preamble, one line
    /// for each instruction in order, and the return.
    pub fn emit_program(&mut self, instructions: &Vec<Instruction>)
        ensures
            final(self)@ == old(self)@ + program_text(instructions@),
    {
        self.emit(String::from_str(".intel_syntax noprefix"));
        self.emit(String::from_str(".globl main"));
        self.emit(String::from_str("main:"));
        assert(self@ =~= old(self)@ + preamble());
        let mut done: usize = 0;
        while done < instructions.len()
            invariant
                done <= instructions@.len(),
                self@ == old(self)@ + preamble() + instruction_lines(instructions@.take(done as int)),
            decreases instructions@.len() - done,
        {
            self.emit(instructions[done].render());
            done += 1;
            assert(self@ =~= old(self)@ + preamble() + instruction_lines(
                instructions@.take(done as int),
            ));
        }
        assert(instructions@.take(done as int) =~= instructions@);
        self.emit(String::from_str("  ret"));
        assert(self@ =~= old(self)@ + program_text(instructions@));
    }

    /// The lines emitted so far.
    pub fn lines(&self) -> (lines: &Vec<String>)
        ensures
            lines.deep_view() == self@,
    {
        &self.lines
    }

    /// Hands out the lines emitted so far and ends the assembler.
    pub fn into_lines(self) -> (lines: Vec<String>)
        ensures
            lines.deep_view() == self@,
    {
        self.lines
    }
}

} // verus!
