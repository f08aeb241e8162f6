use vstd::prelude::*;
use crate::environment::memory::Address;
use crate::environment::units::{Bytes, CELL_SIZE};
use crate::environment::value::{Value, value_text};
use crate::io::format::{address_text, decimal_string};
use vstd::string::*;
use crate::evaluate::definition::ExecutionToken;
use super::CompiledInstructions;

verus! {

/// Compiled instructions add instructions to the list they belong to.
pub type InstructionCompiler = CompiledInstructions;

/// A small instruction made while compiling.
#[derive(Clone, Copy, PartialEq, Eq, Structural, Debug)]
pub enum CompiledInstruction {
    /// Push a value on the data stack.
    Push(Value),
    /// Append a value to the data space.
    MemPush(Value),
    /// Continue at an address.
    Branch(Address),
    /// Pop a number; continue at an address where it is zero.
    BranchFalse(Address),
    /// Move the instruction pointer backwards (`true`) or forwards by a number of bytes.
    RelativeBranch(bool, Bytes),
    /// Pop a number; where it is zero, move the instruction pointer as `RelativeBranch` does.
    RelativeBranchFalse(bool, Bytes),
}

/// The text of an instruction's target: a relative jump is written as a signed distance
/// from the instruction pointer.
pub open spec fn relative_text(backwards: bool, distance: Bytes) -> Seq<char> {
    "[ip "@ + (if backwards { "-"@ } else { "+"@ }) + " "@ + decimal_string(distance.0 as int) + seq![' '] + "Bytes"@
        + "]"@
}

/// The text of a compiled instruction.
pub open spec fn instruction_text(ci: CompiledInstruction) -> Seq<char> {
    match ci {
        CompiledInstruction::Push(v) => "push "@ + value_text(v),
        CompiledInstruction::MemPush(v) => "[alloc + push mem] "@ + value_text(v),
        CompiledInstruction::Branch(a) => "jmp "@ + address_text(a.raw() as nat),
        CompiledInstruction::BranchFalse(a) => "jz "@ + address_text(a.raw() as nat),
        CompiledInstruction::RelativeBranch(b, d) => "jmp "@ + relative_text(b, d),
        CompiledInstruction::RelativeBranchFalse(b, d) => "jz "@ + relative_text(b, d),
    }
}

fn relative_string(backwards: bool, distance: Bytes) -> (r: String)
    ensures r@ == relative_text(backwards, distance),
{
    let mut s = String::from_str("[ip ");
    s.append(if backwards { "-" } else { "+" });
    s.append(" ");
    let d = distance.to_string();
    s.append(d.as_str());
    s.append("]");
    s
}

impl CompiledInstruction {
    /// Describes the instruction.
    pub fn to_string(&self) -> (r: String)
        ensures r@ == instruction_text(*self),
    {
        let (mut s, rest) = match *self {
            CompiledInstruction::Push(v) => (String::from_str("push "), v.to_string()),
            CompiledInstruction::MemPush(v) => (String::from_str("[alloc + push mem] "), v.to_string()),
            CompiledInstruction::Branch(a) => (String::from_str("jmp "), a.to_string()),
            CompiledInstruction::BranchFalse(a) => (String::from_str("jz "), a.to_string()),
            CompiledInstruction::RelativeBranch(b, d) => (String::from_str("jmp "), relative_string(b, d)),
            CompiledInstruction::RelativeBranchFalse(b, d) => (String::from_str("jz "), relative_string(b, d)),
        };
        s.append(rest.as_str());
        s
    }
}

/// The direction and distance from the cell after `instruction_pointer` to `destination`.
pub open spec fn relative_offset(instruction_pointer: Address, destination: Address) -> (bool, Bytes) {
    let next = instruction_pointer.raw() + CELL_SIZE;
    if destination.raw() < next {
        (true, Bytes((next - destination.raw()) as u64))
    } else {
        (false, Bytes((destination.raw() - next) as u64))
    }
}

fn relative_branch_meta(instruction_pointer: Address, destination: Address) -> (r: (bool, Bytes))
    requires instruction_pointer.raw() + CELL_SIZE <= u64::MAX,
    ensures r == relative_offset(instruction_pointer, destination),
{
    let next = instruction_pointer.0.0 + CELL_SIZE;
    if destination.0.0 < next {
        (true, Bytes(next - destination.0.0))
    } else {
        (false, Bytes(destination.0.0 - next))
    }
}

impl CompiledInstructions {
    /// Compiles a jump to `destination` taken when the popped number is zero.
    pub fn branch_false(&mut self, destination: Address) -> (r: ExecutionToken)
        ensures
            final(self)@ == old(self)@.push(CompiledInstruction::BranchFalse(destination)),
            r == ExecutionToken::CompiledInstruction(old(self)@.len() as usize),
    {
        self.add(CompiledInstruction::BranchFalse(destination))
    }

    /// Compiles a jump to `destination`.
    pub fn branch(&mut self, destination: Address) -> (r: ExecutionToken)
        ensures
            final(self)@ == old(self)@.push(CompiledInstruction::Branch(destination)),
            r == ExecutionToken::CompiledInstruction(old(self)@.len() as usize),
    {
        self.add(CompiledInstruction::Branch(destination))
    }

    /// Compiles a jump, stored at `instruction_pointer`, to `destination`, by offset.
    pub fn relative_branch(&mut self, instruction_pointer: Address, destination: Address) -> (r: ExecutionToken)
        requires instruction_pointer.raw() + CELL_SIZE <= u64::MAX,
        ensures
            final(self)@ == old(self)@.push(
                CompiledInstruction::RelativeBranch(
                    relative_offset(instruction_pointer, destination).0,
                    relative_offset(instruction_pointer, destination).1,
                ),
            ),
            r == ExecutionToken::CompiledInstruction(old(self)@.len() as usize),
    {
        let (backwards, bytes) = relative_branch_meta(instruction_pointer, destination);
        self.add(CompiledInstruction::RelativeBranch(backwards, bytes))
    }

    /// Compiles a conditional jump, stored at `instruction_pointer`, to `destination`, by offset.
    pub fn relative_branch_false(&mut self, instruction_pointer: Address, destination: Address) -> (r: ExecutionToken)
        requires instruction_pointer.raw() + CELL_SIZE <= u64::MAX,
        ensures
            final(self)@ == old(self)@.push(
                CompiledInstruction::RelativeBranchFalse(
                    relative_offset(instruction_pointer, destination).0,
                    relative_offset(instruction_pointer, destination).1,
                ),
            ),
            r == ExecutionToken::CompiledInstruction(old(self)@.len() as usize),
    {
        let (backwards, bytes) = relative_branch_meta(instruction_pointer, destination);
        self.add(CompiledInstruction::RelativeBranchFalse(backwards, bytes))
    }

    /// Compiles pushing `value` on the data stack.
    pub fn push(&mut self, value: Value) -> (r: ExecutionToken)
        ensures
            final(self)@ == old(self)@.push(CompiledInstruction::Push(value)),
            r == ExecutionToken::CompiledInstruction(old(self)@.len() as usize),
    {
        self.add(CompiledInstruction::Push(value))
    }

    /// Compiles appending `value` to the data space.
    pub fn mem_push(&mut self, value: Value) -> (r: ExecutionToken)
        ensures
            final(self)@ == old(self)@.push(CompiledInstruction::MemPush(value)),
            r == ExecutionToken::CompiledInstruction(old(self)@.len() as usize),
    {
        self.add(CompiledInstruction::MemPush(value))
    }
}

} // verus!
