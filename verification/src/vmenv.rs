//! Labels: named runs of instructions that are compiled as one.

use crate::compile::{bytecode_of_all, Compile, Instruction};
use crate::options::ProgramOptions;
use vstd::prelude::*;

verus! {

/// A run of instructions.
pub struct Label {
    instructions: Vec<Instruction>,
}

impl Label {
    /// The instructions of this label, in order.
    pub closed spec fn instructions(&self) -> Seq<Instruction> {
        self.instructions@
    }

    /// Add an instruction behind those that are there.
    pub fn push(&mut self, instruction: Instruction)
        ensures
            final(self).instructions() == old(self).instructions().push(instruction),
    {
        self.instructions.push(instruction)
    }

    /// Remove every instruction.
    pub fn clear(&mut self)
        ensures
            final(self).instructions() == Seq::<Instruction>::empty(),
    {
        self.instructions.clear();
    }

    /// Compile the instructions, in order, and append the bytecode to `dest`.
    pub fn compile(&self, dest: &mut Vec<u8>, program_options: &ProgramOptions)
        ensures
            final(dest)@ == old(dest)@ + bytecode_of_all(self.instructions(), program_options),
    {
        let mut i: usize = 0;
        while i < self.instructions.len()
            invariant
                i <= self.instructions@.len(),
                dest@ == old(dest)@ + bytecode_of_all(
                    self.instructions@.take(i as int),
                    program_options,
                ),
            decreases self.instructions@.len() - i,
        {
            self.instructions[i].compile_into(dest, program_options);
            proof {
                assert(self.instructions@.take(i + 1).drop_last() =~= self.instructions@.take(
                    i as int,
                ));
                assert(dest@ =~= old(dest)@ + bytecode_of_all(
                    self.instructions@.take(i + 1),
                    program_options,
                ));
            }
            i = i + 1;
        }
        assert(self.instructions@.take(i as int) =~= self.instructions@);
    }

    /// A label of the given instructions.
    pub fn new(instructions: Vec<Instruction>) -> (label: Label)
        ensures
            label.instructions() == instructions@,
    {
        Label { instructions }
    }
}

impl Default for Label {
    /// A label without instructions.
    fn default() -> (label: Label)
        ensures
            label.instructions() == Seq::<Instruction>::empty(),
    {
        Label { instructions: Vec::new() }
    }
}

} // verus!
