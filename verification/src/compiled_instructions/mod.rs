pub mod instruction_compiler;

use vstd::prelude::*;
use crate::environment::memory::Address;
use crate::environment::units::{Bytes, Cells, CELL_SIZE};
use crate::environment::value::Value;
use crate::evaluate::definition::ExecutionToken;

pub use instruction_compiler::{CompiledInstruction, InstructionCompiler};

verus! {

/// The instructions made while compiling, each named by its position.
pub struct CompiledInstructions {
    compiled_instructions: Vec<CompiledInstruction>,
}

impl View for CompiledInstructions {
    type V = Seq<CompiledInstruction>;

    closed spec fn view(&self) -> Seq<CompiledInstruction> {
        self.compiled_instructions@
    }
}

impl CompiledInstructions {
    pub fn new() -> (r: Self)
        ensures r@ == Seq::<CompiledInstruction>::empty(),
    {
        CompiledInstructions { compiled_instructions: Vec::new() }
    }

    /// The instruction a compiled-instruction token names; the token must name one of the
    /// instructions compiled so far.
    pub fn get(&self, execution_token: ExecutionToken) -> (r: CompiledInstruction)
        requires
            execution_token matches ExecutionToken::CompiledInstruction(i) && i < self@.len(),
        ensures
            r == self@[execution_token->CompiledInstruction_0 as int],
    {
        match execution_token {
            ExecutionToken::CompiledInstruction(i) => self.compiled_instructions[i],
            _ => self.compiled_instructions[0],
        }
    }

    pub fn len(&self) -> (r: usize)
        ensures r == self@.len(),
    {
        self.compiled_instructions.len()
    }

    /// The compiler that adds instructions to this list.
    pub fn compiler(&mut self) -> (r: &mut InstructionCompiler)
        ensures
            *r == *old(self),
            *final(self) == *final(r),
    {
        self
    }

    /// Adds an instruction; its token names its position.
    pub fn add(&mut self, compiled_instruction: CompiledInstruction) -> (r: ExecutionToken)
        ensures
            final(self)@ == old(self)@.push(compiled_instruction),
            r == ExecutionToken::CompiledInstruction(old(self)@.len() as usize),
    {
        self.compiled_instructions.push(compiled_instruction);
        ExecutionToken::CompiledInstruction(self.compiled_instructions.len() - 1)
    }
}

} // verus!
