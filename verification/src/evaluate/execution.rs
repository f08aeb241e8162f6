use vstd::prelude::*;
use vstd::string::*;
use crate::compiled_instructions::CompiledInstruction;
use crate::environment::memory::{Address, MemorySegment};
use crate::environment::units::{Bytes, Cells, CELL_SIZE};
use crate::environment::value::{Value, ValueVariant};
use crate::evaluate::definition::{instruction_of, Definition, ExecutionToken};
use crate::evaluate::state::{Access, ForthState};
use crate::evaluate::{Error, ExecutionMode, ForthResult};
use crate::operations::{execute_operation, operation_rank, Operation};

use crate::io::output_stream::kept_output;
use crate::io::tokens::{after_token, next_token_text, upper_text};
use crate::evaluate::definition::text_definition;
use crate::operations::operation_effect;

verus! {

/// The parts of a machine's state that an operation may change.
#[derive(Clone, Copy, PartialEq, Eq, Structural, Debug)]
pub enum Field {
    Stack,
    ReturnStack,
    DataSpace,
    Pad,
    Heap,
    Definitions,
    Compiled,
    Input,
    Output,
    Pointer,
    Mode,
    Mappings,
}

/// The depth of `EXECUTE`s an execution token leads to before it does its work.
pub open spec fn token_rank(xt: ExecutionToken) -> int {
    match xt {
        ExecutionToken::LeafOperation(op) => operation_rank(op),
        _ => 0,
    }
}

/// The parts of the state that a write to memory may change.
pub open spec fn memory_fields() -> Set<Field> {
    set![Field::Stack, Field::ReturnStack, Field::DataSpace, Field::Pad, Field::Heap, Field::Mode, Field::Mappings]
}

/// A write to memory changes nothing but memory.
pub proof fn lemma_write_frame<T: ValueVariant>(old: &ForthState, new: &ForthState, address: Address, value: T, r: ForthResult)
    requires ForthState::spec_write_effect(old, new, address, value, r),
    ensures new.unchanged_except(old, memory_fields()),
{
}

/// A write to memory keeps everything outside memory.
pub proof fn lemma_write_keeps<T: ValueVariant>(old: &ForthState, new: &ForthState, address: Address, value: T, r: ForthResult)
    requires ForthState::spec_write_effect(old, new, address, value, r),
    ensures new.keeps_non_memory(old), new.input_stream == old.input_stream,
{
}

impl ForthState {
    /// Everything outside memory and the input is as in `old`: the dictionary, the compiled
    /// instructions, the output, where execution stands, the layout.
    pub open spec fn keeps_non_memory(&self, old: &Self) -> bool {
        &&& self.definitions == old.definitions
        &&& self.compiled_instructions == old.compiled_instructions
        &&& self.output_stream == old.output_stream
        &&& self.instruction_pointer == old.instruction_pointer
        &&& self.current_instruction == old.current_instruction
        &&& self.config == old.config
        &&& self.stack.spec_stack_base() == old.stack.spec_stack_base()
        &&& self.return_stack.spec_stack_base() == old.return_stack.spec_stack_base()
        &&& self.data_space.spec_base_address() == old.data_space.spec_base_address()
    }

    /// Every part of the state outside `fields` is as in `old`; the segments keep their
    /// bases, and the data stack its frame.
    pub open spec fn unchanged_except(&self, old: &Self, fields: Set<Field>) -> bool {
        &&& self.stack.spec_stack_base() == old.stack.spec_stack_base()
        &&& self.stack.spec_frame_offset() == old.stack.spec_frame_offset()
        &&& self.return_stack.spec_stack_base() == old.return_stack.spec_stack_base()
        &&& self.data_space.spec_base_address() == old.data_space.spec_base_address()
        &&& self.config == old.config
        &&& (!fields.contains(Field::Stack) ==> self.stack == old.stack)
        &&& (!fields.contains(Field::ReturnStack) ==> self.return_stack == old.return_stack)
        &&& (!fields.contains(Field::DataSpace) ==> self.data_space == old.data_space)
        &&& (!fields.contains(Field::Pad) ==> self.pad == old.pad)
        &&& (!fields.contains(Field::Heap) ==> self.heap == old.heap)
        &&& (!fields.contains(Field::Definitions) ==> self.definitions == old.definitions)
        &&& (!fields.contains(Field::Compiled) ==> self.compiled_instructions == old.compiled_instructions)
        &&& (!fields.contains(Field::Input) ==> self.input_stream == old.input_stream)
        &&& (!fields.contains(Field::Output) ==> self.output_stream == old.output_stream)
        &&& (!fields.contains(Field::Pointer) ==> self.instruction_pointer == old.instruction_pointer
            && self.current_instruction == old.current_instruction)
        &&& (!fields.contains(Field::Mode) ==> self.internal_state_memory == old.internal_state_memory)
        &&& (!fields.contains(Field::Mappings) ==> self.memory_map == old.memory_map && self.anonymous_pages
            == old.anonymous_pages && self.next_anonymous_mapping == old.next_anonymous_mapping)
    }

    /// Whether `n` more cells fit after the data space.
    pub open spec fn data_room(&self, n: nat) -> bool {
        self.data_space.spec_base_address().raw() + (self.data_space.spec_length() + n) * CELL_SIZE <= u64::MAX
    }

    /// The address just past the data space.
    pub open spec fn spec_here(&self) -> Address {
        Address::spec_from_raw(self.data_space.spec_base_address().raw() + self.data_space.spec_length() * CELL_SIZE)
    }

    /// The address just past the data space.
    pub fn here_address(&self) -> (r: Address)
        requires self.wf(),
        ensures
            r == self.spec_here(),
            r.raw() == self.data_space.spec_base_address().raw() + self.data_space.spec_length() * CELL_SIZE,
    {
        self.data_space.top()
    }

    /// Appends `value` to the data space; `InsufficientMemory` where the address space is full.
    pub fn push_data<T: ValueVariant>(&mut self, value: T) -> (r: ForthResult)
        requires old(self).wf(),
        ensures
            final(self).wf(),
            old(self).data_room(2) ==> r is Ok && final(self).data_space.view() == old(self).data_space.view()
                + value.spec_memory_cells() && final(self).data_space.spec_length() == old(self).data_space.spec_length()
                + T::spec_size() && final(self).unchanged_except(old(self), set![Field::DataSpace]),
            !old(self).data_room(2) ==> r == Err::<(), Error>(Error::InsufficientMemory) && *final(self) == *old(self),
    {
        if !self.has_data_room(2) {
            return Err(Error::InsufficientMemory);
        }
        self.data_space.push(value);
        Ok(())
    }

    /// Appends the zero cells a value of `T` takes to the data space.
    pub fn push_data_none<T: ValueVariant>(&mut self) -> (r: ForthResult)
        requires old(self).wf(),
        ensures
            final(self).wf(),
            old(self).data_room(2) ==> r is Ok && final(self).data_space.view() == old(self).data_space.view()
                + Seq::new(T::spec_size(), |i: int| Value::Number(0)) && final(self).data_space.spec_length()
                == old(self).data_space.spec_length() + T::spec_size() && final(self).unchanged_except(
                old(self),
                set![Field::DataSpace],
            ),
            !old(self).data_room(2) ==> r == Err::<(), Error>(Error::InsufficientMemory) && *final(self) == *old(self),
    {
        if !self.has_data_room(2) {
            return Err(Error::InsufficientMemory);
        }
        self.data_space.push_none::<T>();
        Ok(())
    }

    /// Whether `n` more cells fit after the data space.
    pub fn has_data_room(&self, n: u64) -> (r: bool)
        requires self.wf(), n <= 16,
        ensures r == self.data_room(n as nat),
    {
        let top = self.data_space.top();
        match (n * CELL_SIZE).checked_add(top.0.0) {
            Some(_) => {
                assert(self.data_space.spec_base_address().raw() + (self.data_space.spec_length() + n) * 8 == top.raw() + n * 8) by (nonlinear_arith)
                    requires top.raw() == self.data_space.spec_base_address().raw() + self.data_space.spec_length() * 8;
                true
            },
            None => {
                assert(self.data_space.spec_base_address().raw() + (self.data_space.spec_length() + n) * 8 == top.raw() + n * 8) by (nonlinear_arith)
                    requires top.raw() == self.data_space.spec_base_address().raw() + self.data_space.spec_length() * 8;
                false
            },
        }
    }

    /// What calling the definition at `address` does: the return address (where there is
    /// an instruction pointer) and the old frame offset are saved on the return stack, a new
    /// frame starts, and the instruction pointer moves to `address`.
    pub open spec fn called(old: &Self, new: &Self, address: Address, r: ForthResult) -> bool {
        let saved = match old.instruction_pointer {
            Some(a) => old.return_stack@.push(Value::Number(a.raw() as i64)),
            None => old.return_stack@,
        };
        &&& r is Ok
        &&& new.wf()
        &&& new.unchanged_except(old, set![Field::ReturnStack, Field::Pointer])
        &&& new.current_instruction == old.current_instruction
        &&& new.instruction_pointer == Some(address)
        &&& new.return_stack@ == saved.push(Value::Number(old.return_stack.spec_frame_offset() as i64))
        &&& new.return_stack.spec_frame_offset() == saved.len() + 1
    }

    /// Calls the definition at `address`: the current instruction pointer (if any) is saved on
    /// the return stack, a new frame begins, and execution continues at `address`.
    pub fn call(&mut self, address: Address) -> (r: ForthResult)
        requires old(self).wf(),
        ensures
            Self::called(old(self), final(self), address, r),
    {
        let ghost start = *self;
        match self.instruction_pointer {
            Some(a) => {
                self.return_stack.push(a.to_number());
            },
            None => {},
        }
        self.instruction_pointer = Some(address);
        self.return_stack.push_frame();
        proof {
            let saved = match start.instruction_pointer {
                Some(a) => start.return_stack@.push(Value::Number(a.raw() as i64)),
                None => start.return_stack@,
            };
            assert(self.return_stack@ == saved.push(Value::Number(start.return_stack.spec_frame_offset() as i64)));
            assert(self.return_stack.spec_frame_offset() == saved.len() + 1);
            assert(self.unchanged_except(&start, set![Field::ReturnStack, Field::Pointer]));
            assert(self.wf());
        }
        Ok(())
    }

    /// What returning from the current definition does: the frame is dropped, the frame
    /// offset saved under it is restored, and the instruction pointer saved under that is
    /// restored (none where the return stack is empty).
    pub open spec fn returned(old: &Self, new: &Self, r: ForthResult) -> bool {
                let rs = old.return_stack;
                let kept = if rs.spec_frame_offset() <= rs@.len() {
                    rs@.take(rs.spec_frame_offset() as int)
                } else {
                    rs@
                };
                let unframed = if rs.spec_frame_offset() == 0 {
                    kept
                } else {
                    kept.drop_last()
                };
                if rs.spec_frame_offset() != 0 && kept.len() == 0 {
                    r == Err::<(), Error>(Error::StackUnderflow) && new.instruction_pointer
                        == old.instruction_pointer
                } else {
                    &&& r is Ok
                    &&& new.return_stack.spec_frame_offset() == if rs.spec_frame_offset() == 0 {
                        0
                    } else {
                        kept.last().spec_to_number() as u64 as usize
                    }
                    &&& unframed.len() > 0 ==> new.return_stack@ == unframed.drop_last()
                        && new.instruction_pointer == Some(
                        Address::spec_from_u64(unframed.last().spec_to_number() as u64),
                    )
                    &&& unframed.len() == 0 ==> new.return_stack@ == unframed
                        && new.instruction_pointer is None
                }
            }

    /// Returns from the current definition: its frame is dropped and the saved instruction
    /// pointer (if any) is restored.
    pub fn return_from(&mut self) -> (r: ForthResult)
        requires old(self).wf(),
        ensures
            final(self).wf(),
            final(self).unchanged_except(old(self), set![Field::ReturnStack, Field::Pointer]),
            final(self).current_instruction == old(self).current_instruction,
            ForthState::returned(old(self), final(self), r),
    {
        match self.return_stack.pop_frame() {
            Ok(()) => {},
            Err(e) => {
                return Err(e);
            },
        }
        let ghost unframed = self.return_stack@;
        self.instruction_pointer = match self.return_stack.pop::<Address>() {
            Ok(a) => Some(a),
            Err(_) => None,
        };
        proof {
            if unframed.len() > 0 {
                assert(unframed.skip(unframed.len() - 1)[0] == unframed.last());
            } else {
                assert(self.return_stack@ =~= unframed);
            }
        }
        Ok(())
    }

    /// Continues execution at `address`.
    pub fn jump_to(&mut self, address: Address) -> (r: ForthResult)
        requires old(self).wf(),
        ensures
            r is Ok,
            final(self).wf(),
            final(self).unchanged_except(old(self), set![Field::Pointer]),
            final(self).current_instruction == old(self).current_instruction,
            final(self).instruction_pointer == Some(address),
    {
        self.instruction_pointer = Some(address);
        Ok(())
    }

    /// Where a jump `backwards` or forward by `offset` bytes from the instruction pointer
    /// `ip` leads, or why it cannot be made.
    pub open spec fn relative_target(ip: Option<Address>, backwards: bool, offset: Bytes) -> Result<Address, Error> {
        match ip {
            None => Err(Error::InvalidAddress),
            Some(ip) => {
                let target = if backwards {
                    ip.raw() - offset.0
                } else {
                    ip.raw() + offset.0
                };
                if 0 <= target <= u64::MAX {
                    Ok(Address::spec_from_raw(target))
                } else {
                    Err(Error::InvalidAddress)
                }
            },
        }
    }

    /// The instruction pointer of `new` after a relative jump from `old`, and the answer.
    pub open spec fn jumped_relative(old: &Self, new: &Self, backwards: bool, offset: Bytes, r: ForthResult) -> bool {
        match Self::relative_target(old.instruction_pointer, backwards, offset) {
            Ok(a) => r is Ok && new.instruction_pointer == Some(a),
            Err(e) => r == Err::<(), Error>(e) && new.instruction_pointer == old.instruction_pointer,
        }
    }

    /// Moves the instruction pointer back (`backwards`) or forward by `offset` bytes.
    pub fn relative_jump_to(&mut self, backwards: bool, offset: Bytes) -> (r: ForthResult)
        requires old(self).wf(),
        ensures
            final(self).wf(),
            final(self).unchanged_except(old(self), set![Field::Pointer]),
            final(self).current_instruction == old(self).current_instruction,
            ForthState::jumped_relative(old(self), final(self), backwards, offset, r),
    {
        let ip = match self.instruction_pointer {
            Some(ip) => ip,
            None => {
                return Err(Error::InvalidAddress);
            },
        };
        if backwards {
            if ip.0.0 < offset.0 {
                return Err(Error::InvalidAddress);
            }
            self.instruction_pointer = Some(Address(Bytes(ip.0.0 - offset.0)));
        } else {
            match ip.0.0.checked_add(offset.0) {
                Some(t) => {
                    self.instruction_pointer = Some(Address(Bytes(t)));
                },
                None => {
                    return Err(Error::InvalidAddress);
                },
            }
        }
        Ok(())
    }

    /// Switches to compiling.
    pub fn set_compilemode(&mut self) -> (r: ForthResult)
        requires old(self).wf(),
        ensures
            r is Ok,
            final(self).wf(),
            final(self).unchanged_except(old(self), set![Field::Mode]),
            final(self).spec_execution_mode() == ExecutionMode::Compile,
            final(self).internal_state_memory.execution_mode.value == Value::Number(1),
            final(self).internal_state_memory.base == old(self).internal_state_memory.base,
    {
        self.internal_state_memory.execution_mode.value = Value::Number(1);
        Ok(())
    }

    /// Switches to interpreting.
    pub fn set_interpretmode(&mut self) -> (r: ForthResult)
        requires old(self).wf(),
        ensures
            r is Ok,
            final(self).wf(),
            final(self).unchanged_except(old(self), set![Field::Mode]),
            final(self).spec_execution_mode() == ExecutionMode::Interpret,
            final(self).internal_state_memory.execution_mode.value == Value::Number(0),
            final(self).internal_state_memory.base == old(self).internal_state_memory.base,
    {
        self.internal_state_memory.execution_mode.value = Value::Number(0);
        Ok(())
    }

    /// What running the compiled instruction `instruction` does to a machine, and what it
    /// answers.
    pub open spec fn compiled_effect(instruction: CompiledInstruction, old: &Self, new: &Self, r: ForthResult) -> bool {
        &&& new.wf()
        &&& new.unchanged_except(old, set![Field::Stack, Field::DataSpace, Field::Pointer])
        &&& new.current_instruction == old.current_instruction
        &&& match instruction {
            CompiledInstruction::Push(v) => r is Ok && new.stack@ =~= old.stack@.push(v) && new.data_space
                == old.data_space && new.instruction_pointer == old.instruction_pointer,
            CompiledInstruction::MemPush(v) => (old.data_room(2) ==> r is Ok && new.data_space.view()
                =~= old.data_space.view().push(v)) && (!old.data_room(2) ==> r == Err::<(), Error>(
                Error::InsufficientMemory,
            ) && new.data_space == old.data_space) && new.stack == old.stack && new.instruction_pointer
                == old.instruction_pointer,
            CompiledInstruction::Branch(a) => r is Ok && new.instruction_pointer == Some(a) && new.stack
                == old.stack && new.data_space == old.data_space,
            CompiledInstruction::BranchFalse(a) => {
                let s = old.stack@;
                &&& new.data_space == old.data_space
                &&& s.len() == 0 ==> r == Err::<(), Error>(Error::StackUnderflow) && new.stack@ == s
                    && new.instruction_pointer == old.instruction_pointer
                &&& s.len() > 0 ==> r is Ok && new.stack@ =~= s.drop_last() && new.instruction_pointer
                    == if s.last().spec_to_number() as u64 > 0 {
                    old.instruction_pointer
                } else {
                    Some(a)
                }
            },
            CompiledInstruction::RelativeBranch(backwards, offset) => new.stack == old.stack && new.data_space
                == old.data_space && Self::jumped_relative(old, new, backwards, offset, r),
            CompiledInstruction::RelativeBranchFalse(backwards, offset) => {
                let s = old.stack@;
                &&& new.data_space == old.data_space
                &&& s.len() == 0 ==> r == Err::<(), Error>(Error::StackUnderflow) && new.stack@ == s
                    && new.instruction_pointer == old.instruction_pointer
                &&& s.len() > 0 ==> new.stack@ =~= s.drop_last() && if s.last().spec_to_number() as u64 > 0 {
                    r is Ok && new.instruction_pointer == old.instruction_pointer
                } else {
                    Self::jumped_relative(old, new, backwards, offset, r)
                }
            },
        }
    }

    /// Runs a compiled instruction.
    pub fn execute_compiled(&mut self, instruction: CompiledInstruction) -> (r: ForthResult)
        requires old(self).wf(),
        ensures
            Self::compiled_effect(instruction, old(self), final(self), r),
    {
        match instruction {
            CompiledInstruction::Push(v) => {
                self.stack.push(v);
                Ok(())
            },
            CompiledInstruction::MemPush(v) => self.push_data(v),
            CompiledInstruction::Branch(a) => self.jump_to(a),
            CompiledInstruction::BranchFalse(a) => {
                let ghost s = self.stack@;
                let flag = match self.stack.pop::<u64>() {
                    Ok(f) => f,
                    Err(e) => {
                        assert(self.stack@ =~= s);
                        return Err(e);
                    },
                };
                proof {
                    assert(s.skip(s.len() - 1)[0] == s.last());
                    assert(s.take(s.len() - 1) =~= s.drop_last());
                }
                if flag > 0 {
                    Ok(())
                } else {
                    self.jump_to(a)
                }
            },
            CompiledInstruction::RelativeBranch(backwards, offset) => self.relative_jump_to(backwards, offset),
            CompiledInstruction::RelativeBranchFalse(backwards, offset) => {
                let ghost s = self.stack@;
                let flag = match self.stack.pop::<u64>() {
                    Ok(f) => f,
                    Err(e) => {
                        assert(self.stack@ =~= s);
                        return Err(e);
                    },
                };
                proof {
                    assert(s.skip(s.len() - 1)[0] == s.last());
                    assert(s.take(s.len() - 1) =~= s.drop_last());
                }
                if flag > 0 {
                    Ok(())
                } else {
                    self.relative_jump_to(backwards, offset)
                }
            },
        }
    }

    /// What executing `execution_token` does to a machine, and what it answers: a number is
    /// pushed; a definition is called; a compiled instruction runs as `compiled_effect` says
    /// (a token past the compiled instructions is refused); an operation has its effect.
    pub open spec fn token_effect(execution_token: ExecutionToken, old: &Self, new: &Self, r: ForthResult) -> bool {
        &&& new.wf()
        &&& new.config == old.config
        &&& new.stack.spec_stack_base() == old.stack.spec_stack_base()
        &&& new.return_stack.spec_stack_base() == old.return_stack.spec_stack_base()
        &&& new.data_space.spec_base_address() == old.data_space.spec_base_address()
        &&& match execution_token {
            ExecutionToken::Number(i) => r is Ok && new.stack@ =~= old.stack@.push(Value::Number(i))
                && new.unchanged_except(old, set![Field::Stack]),
            ExecutionToken::Definition(a) => Self::called(old, new, a, r),
            ExecutionToken::CompiledInstruction(i) => if i < old.compiled_instructions@.len() {
                Self::compiled_effect(old.compiled_instructions@[i as int], old, new, r)
            } else {
                r == Err::<(), Error>(Error::InvalidExecutionToken) && *new == *old
            },
            ExecutionToken::LeafOperation(op) => operation_effect(op, old, new, r),
        }
        &&& kept_output(&old.output_stream, &new.output_stream)
    }

    /// Executes an execution token: calls a definition, runs a compiled instruction or a
    /// built-in operation, or pushes a number.
    pub fn execute(&mut self, execution_token: ExecutionToken) -> (r: ForthResult)
        requires old(self).wf(),
        ensures
            Self::token_effect(execution_token, old(self), final(self), r),
        decreases token_rank(execution_token), 2int,
    {
        match execution_token {
            ExecutionToken::Definition(address) => self.call(address),
            ExecutionToken::LeafOperation(op) => execute_operation(op, self),
            ExecutionToken::CompiledInstruction(i) => if i < self.compiled_instructions.len() {
                let instruction = self.compiled_instructions.get(execution_token);
                self.execute_compiled(instruction)
            } else {
                Err(Error::InvalidExecutionToken)
            },
            ExecutionToken::Number(i) => {
                self.stack.push(i);
                Ok(())
            },
        }
    }

    /// The instruction at the instruction pointer, which must be mapped executable.
    pub fn read_instruction_pointer(&self) -> (r: Result<ExecutionToken, Error>)
        requires self.wf(),
        ensures
            match self.instruction_pointer {
                None => r == Err::<ExecutionToken, Error>(Error::InvalidAddress),
                Some(ip) => match self.spec_access(ip, Access::Execute) {
                    Err(e) => r == Err::<ExecutionToken, Error>(e),
                    Ok(mt) => r == match self.spec_cell_result(mt, ip) {
                        Ok(v) => Ok::<ExecutionToken, Error>(instruction_of(v)),
                        Err(e) => Err(e),
                    },
                },
            },
    {
        let address = match self.instruction_pointer {
            Some(a) => a,
            None => {
                return Err(Error::InvalidAddress);
            },
        };
        self.read_executable(address)
    }

    /// The instruction pointer one cell past `ip` (none stays none).
    pub open spec fn advanced_pointer(ip: Option<Address>) -> Option<Address> {
        match ip {
            Some(a) => Some(Address::spec_from_raw(a.raw() + CELL_SIZE)),
            None => None,
        }
    }

    /// What `execute_current_instruction` does to a machine, and what it answers: where the
    /// instruction pointer cannot move a cell on, nothing changes and `InvalidAddress` is
    /// the answer; otherwise it moves on, the current instruction is taken, and, where there
    /// was one, it is executed as `token_effect` says.
    pub open spec fn instruction_executed(old: &Self, new: &Self, r: ForthResult) -> bool {
        &&& new.wf()
        &&& new.config == old.config
        &&& kept_output(&old.output_stream, &new.output_stream)
        &&& if old.instruction_pointer matches Some(ip) && ip.raw() + CELL_SIZE > u64::MAX {
            r == Err::<(), Error>(Error::InvalidAddress) && *new == *old
        } else {
            match old.current_instruction {
                None => {
                    &&& r is Ok
                    &&& new.unchanged_except(old, set![Field::Pointer])
                    &&& new.instruction_pointer == Self::advanced_pointer(old.instruction_pointer)
                    &&& new.current_instruction is None
                },
                Some(xt) => exists|mid: ForthState|
                    {
                        &&& #[trigger] Self::token_effect(xt, &mid, new, r)
                        &&& mid.unchanged_except(old, set![Field::Pointer])
                        &&& mid.instruction_pointer == Self::advanced_pointer(old.instruction_pointer)
                        &&& mid.current_instruction is None
                    },
            }
        }
    }

    /// Starts the next step: the instruction pointer moves one cell on, and the current
    /// instruction (if any) is taken and executed.
    pub fn execute_current_instruction(&mut self) -> (r: ForthResult)
        requires old(self).wf(),
        ensures
            ForthState::instruction_executed(old(self), final(self), r),
    {
        match self.instruction_pointer {
            Some(ip) => {
                match ip.checked_plus_cell(Cells::one()) {
                    Ok(next) => {
                        self.instruction_pointer = Some(next);
                    },
                    Err(e) => {
                        return Err(e);
                    },
                }
            },
            None => {},
        }
        let ghost mid = *self;
        match self.current_instruction.take() {
            Some(xt) => {
                let ghost taken = *self;
                assert(taken.unchanged_except(old(self), set![Field::Pointer]));
                let r = self.execute(xt);
                assert(Self::token_effect(xt, &taken, self, r));
                r
            },
            None => Ok(()),
        }
    }

    /// What `fetch_current_instruction` does to a machine, and what it answers. Where the
    /// instruction pointer reads an instruction, it becomes the current one. Otherwise the
    /// next word of the input is read: at the end of the input the answer is
    /// `TokenStreamEmpty`; a word that is no number and no definition is an unknown word;
    /// while compiling, a definition that is not immediate is appended to the data space;
    /// else the definition's token becomes the current instruction.
    pub open spec fn instruction_fetched(old: &Self, new: &Self, r: ForthResult) -> bool {
        &&& new.wf()
        &&& new.config == old.config
        &&& kept_output(&old.output_stream, &new.output_stream)
        &&& match old.read_instruction_pointer_spec() {
            Ok(xt) => {
                &&& r is Ok
                &&& new.current_instruction == Some(xt)
                &&& new.instruction_pointer == old.instruction_pointer
                &&& new.unchanged_except(old, set![Field::Pointer])
            },
            Err(_) => {
                let rest = old.input_stream.spec_rest();
                &&& new.input_stream.spec_rest() == after_token(rest)
                &&& new.instruction_pointer == old.instruction_pointer
                &&& match next_token_text(rest) {
                    None => r == Err::<(), Error>(Error::TokenStreamEmpty) && new.unchanged_except(
                        old,
                        set![Field::Input],
                    ),
                    Some(text) => match text_definition(&old.definitions, text) {
                        None => r matches Err(Error::UnknownWord(w)) && w@ == upper_text(text)
                            && new.unchanged_except(old, set![Field::Input]),
                        Some(d) => if old.spec_execution_mode() == ExecutionMode::Compile && !d.immediate {
                            &&& new.current_instruction is None
                            &&& new.unchanged_except(old, set![Field::Input, Field::DataSpace, Field::Pointer])
                            &&& old.data_room(2) ==> r is Ok && new.data_space.view() =~= old.data_space.view().push(
                                Value::ExecutionToken(d.execution_token),
                            )
                            &&& !old.data_room(2) ==> r == Err::<(), Error>(Error::InsufficientMemory)
                                && new.data_space == old.data_space
                        } else {
                            &&& r is Ok
                            &&& new.current_instruction == Some(d.execution_token)
                            &&& new.unchanged_except(old, set![Field::Input, Field::Pointer])
                        },
                    },
                }
            },
        }
    }

    /// Chooses the next instruction: the one at the instruction pointer where there is one;
    /// else the next token of the input, which is compiled (and no instruction chosen) while
    /// compiling a word that is not immediate; `TokenStreamEmpty` at the end of the input.
    pub fn fetch_current_instruction(&mut self) -> (r: ForthResult)
        requires old(self).wf(),
        ensures
            ForthState::instruction_fetched(old(self), final(self), r),
    {
        match self.read_instruction_pointer() {
            Ok(xt) => {
                self.current_instruction = Some(xt);
                return Ok(());
            },
            Err(_) => {},
        }
        let token = match self.input_stream.next() {
            Ok(t) => t,
            Err(_) => {
                return Err(Error::TokenStreamEmpty);
            },
        };
        let definition = match self.definitions.get_from_token(token) {
            Ok(d) => d,
            Err(e) => {
                return Err(e);
            },
        };
        if self.execution_mode() == ExecutionMode::Compile && !definition.immediate {
            self.current_instruction = None;
            let ghost before = *self;
            let r = self.push_data(definition.execution_token.value());
            proof {
                assert(before.data_space.view() + seq![Value::ExecutionToken(definition.execution_token)]
                    =~= before.data_space.view().push(Value::ExecutionToken(definition.execution_token)));
            }
            r
        } else {
            self.current_instruction = Some(definition.execution_token);
            Ok(())
        }
    }

    /// What `read_instruction_pointer` gives.
    pub open spec fn read_instruction_pointer_spec(&self) -> Result<ExecutionToken, Error> {
        match self.instruction_pointer {
            None => Err(Error::InvalidAddress),
            Some(ip) => match self.spec_access(ip, Access::Execute) {
                Err(e) => Err(e),
                Ok(mt) => match self.spec_cell_result(mt, ip) {
                    Ok(v) => Ok(instruction_of(v)),
                    Err(e) => Err(e),
                },
            },
        }
    }

    /// Adds built-in operations to the dictionary under their names.
    pub fn add_operations(&mut self, operations: Vec<(&'static str, bool, Operation)>)
        requires old(self).wf(),
        ensures
            final(self).wf(),
            final(self).unchanged_except(old(self), set![Field::Definitions]),
            final(self).definitions.spec_definitions() == old(self).definitions.spec_definitions() + operations@.map_values(
                |t: (&'static str, bool, Operation)|
                    Definition { execution_token: ExecutionToken::LeafOperation(t.2), immediate: t.1 },
            ),
            final(self).definitions.spec_names() == old(self).definitions.spec_names() + operations@.map_values(
                |t: (&'static str, bool, Operation)| t.0@,
            ),
            final(self).definitions.spec_temp_names() == old(self).definitions.spec_temp_names(),
            final(self).definitions.spec_temp_definitions() == old(self).definitions.spec_temp_definitions(),
    {
        let mut i: usize = 0;
        let ghost before = self.definitions.spec_definitions();
        let ghost before_names = self.definitions.spec_names();
        while i < operations.len()
            invariant
                i <= operations@.len(),
                self.wf(),
                self.unchanged_except(old(self), set![Field::Definitions]),
                self.definitions.spec_definitions() == before + operations@.take(i as int).map_values(
                    |t: (&'static str, bool, Operation)|
                        Definition { execution_token: ExecutionToken::LeafOperation(t.2), immediate: t.1 },
                ),
                before == old(self).definitions.spec_definitions(),
                before_names == old(self).definitions.spec_names(),
                self.definitions.spec_names() == before_names + operations@.take(i as int).map_values(
                    |t: (&'static str, bool, Operation)| t.0@,
                ),
                self.definitions.spec_temp_names() == old(self).definitions.spec_temp_names(),
                self.definitions.spec_temp_definitions() == old(self).definitions.spec_temp_definitions(),
            decreases operations@.len() - i,
        {
            let (word, immediate, operation) = operations[i];
            self.definitions.add(
                String::from_str(word),
                Definition::new(ExecutionToken::LeafOperation(operation), immediate),
            );
            i = i + 1;
            assert(operations@.take(i as int) =~= operations@.take(i - 1).push(operations@[i - 1]));
            assert(operations@.take(i as int).map_values(
                |t: (&'static str, bool, Operation)|
                    Definition { execution_token: ExecutionToken::LeafOperation(t.2), immediate: t.1 },
            ) =~= operations@.take(i - 1).map_values(
                |t: (&'static str, bool, Operation)|
                    Definition { execution_token: ExecutionToken::LeafOperation(t.2), immediate: t.1 },
            ).push(Definition { execution_token: ExecutionToken::LeafOperation(operation), immediate }));
            assert(operations@.take(i as int).map_values(|t: (&'static str, bool, Operation)| t.0@)
                =~= operations@.take(i - 1).map_values(|t: (&'static str, bool, Operation)| t.0@).push(word@));
        }
        assert(operations@.take(operations@.len() as int) =~= operations@);
    }

    /// The state with `operations` added to its dictionary.
    pub fn with_operations(self, operations: Vec<(&'static str, bool, Operation)>) -> (r: Self)
        requires self.wf(),
        ensures
            r.wf(),
            r.unchanged_except(&self, set![Field::Definitions]),
            r.definitions.spec_definitions() == self.definitions.spec_definitions() + operations@.map_values(
                |t: (&'static str, bool, Operation)|
                    Definition { execution_token: ExecutionToken::LeafOperation(t.2), immediate: t.1 },
            ),
            r.definitions.spec_names() == self.definitions.spec_names() + operations@.map_values(
                |t: (&'static str, bool, Operation)| t.0@,
            ),
            r.definitions.spec_temp_names() == self.definitions.spec_temp_names(),
            r.definitions.spec_temp_definitions() == self.definitions.spec_temp_definitions(),
    {
        let mut s = self;
        s.add_operations(operations);
        s
    }
}

} // verus!
