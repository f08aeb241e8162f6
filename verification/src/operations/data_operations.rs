use vstd::prelude::*;
use crate::environment::memory::{read_after_write, write_fits, Address, MemorySegment};
use crate::environment::stack::frame_address;
use crate::environment::units::{Bytes, Cells, Pages, CELL_SIZE};
use crate::environment::value::{CellValue, DoubleValue, Value, ValueVariant};
use crate::evaluate::definition::{Definition, ExecutionToken, NameTag, latest_index};
use crate::compiled_instructions::CompiledInstruction;
use crate::evaluate::execution::{lemma_write_frame, memory_fields, Field};
use crate::evaluate::{Error, ForthResult, ForthState};
use crate::io::tokens::{next_word_text, parse_number, skip_space, upper_text, word_end};
use crate::operations::memory_operations::{address_of, pop_address};
use crate::operations::{Operation, Width};

verus! {

/// What `here` does to a machine, and what it answers.
pub open spec fn here_effect(old: &ForthState, new: &ForthState, r: ForthResult) -> bool {
    &&& (r is Ok)
    &&& (new.wf())
    &&& (new.unchanged_except(old, set![Field::Stack]))
    &&& (new.stack@ == old.stack@.push(Value::Number(old.spec_here().raw() as i64)))
}

/// Pushes the address just past the data space (`HERE`).
pub fn here(state: &mut ForthState) -> (r: ForthResult)
    requires old(state).wf(),
    ensures
        here_effect(old(state), final(state), r),
{
    let top = state.here_address();
    state.stack.push(top.to_number());
    proof {
        assert(seq![Value::Number(top.raw() as i64)] =~= Seq::<Value>::empty().push(
            Value::Number(top.raw() as i64),
        ));
    }
    assert(state.stack@ =~= old(state).stack@.push(Value::Number(old(state).spec_here().raw() as i64)));
    Ok(())
}

/// What `allot` does to a machine, and what it answers.
pub open spec fn allot_effect(old: &ForthState, new: &ForthState, r: ForthResult) -> bool {
    &&& (new.wf())
    &&& (new.unchanged_except(old, set![Field::Stack, Field::DataSpace]))
    &&& (old.stack@.len() == 0 ==> r == Err::<(), Error>(Error::StackUnderflow))
    &&& (old.stack@.len() > 0 ==> new.stack@ == old.stack@.drop_last() && ({
                let bytes = old.stack@.last().spec_to_number() as u64;
                let cells = (bytes + 7) / 8;
                if old.data_room(cells as nat) {
                    r is Ok && new.data_space.view() == old.data_space.view() + Seq::new(
                        cells as nat,
                        |i: int| Value::Number(0),
                    )
                } else {
                    r == Err::<(), Error>(Error::InsufficientMemory) && new.data_space == old.data_space
                }
            }))
}

/// Pops a number of bytes and grows the data space by that many bytes, rounded up to cells
/// (`ALLOT`).
pub fn allot(state: &mut ForthState) -> (r: ForthResult)
    requires old(state).wf(),
    ensures
        allot_effect(old(state), final(state), r),
{
    let ghost s = state.stack@;
    let bytes = match state.stack.pop::<u64>() {
        Ok(b) => b,
        Err(e) => {
            return Err(e);
        },
    };
    proof {
        assert(s.skip(s.len() - 1)[0] == s.last());
        assert(s.take(s.len() - 1) =~= s.drop_last());
    }
    let cells = bytes / 8 + if bytes % 8 == 0 { 0 } else { 1 };
    assert(cells == (bytes + 7) / 8) by (nonlinear_arith)
        requires cells == bytes / 8 + if bytes % 8 == 0 { 0int } else { 1int };
    let top = state.here_address();
    let room = match cells.checked_mul(CELL_SIZE) {
        Some(b) => top.0.0.checked_add(b).is_some(),
        None => false,
    };
    proof {
        let base = state.data_space.spec_base_address().raw();
        let len = state.data_space.spec_length();
        assert(base + (len + cells) * 8 == top.raw() + cells * 8) by (nonlinear_arith)
            requires top.raw() == base + len * 8;
    }
    if !room {
        return Err(Error::InsufficientMemory);
    }
    state.data_space.expand(Cells(cells));
    Ok(())
}

/// What `create` does to a machine, and what it answers.
pub open spec fn create_effect(old: &ForthState, new: &ForthState, r: ForthResult) -> bool {
    &&& (new.wf())
    &&& (new.unchanged_except(
                old,
                set![Field::Input, Field::DataSpace, Field::Definitions],
            ))
    &&& (r is Ok ==> {
                let top = old.spec_here();
                &&& new.data_space.view() =~= old.data_space.view() + seq![
                    Value::ExecutionToken(ExecutionToken::Number((top.raw() + 24) as i64)),
                    Value::ExecutionToken(ExecutionToken::LeafOperation(Operation::ControlFlowBreak)),
                    Value::ExecutionToken(ExecutionToken::LeafOperation(Operation::ControlFlowBreak)),
                ]
                &&& new.definitions.spec_definitions() == old.definitions.spec_definitions().push(
                    Definition { execution_token: ExecutionToken::Definition(top), immediate: false },
                )
            })
    &&& (next_word_text(old.input_stream.spec_rest()) matches Err(e) ==> r == Err::<(), Error>(e))
    &&& (next_word_text(old.input_stream.spec_rest()) is Ok ==> (r is Ok <==> old.data_room(8)))
    &&& (next_word_text(old.input_stream.spec_rest()) is Ok && !old.data_room(8) ==> r == Err::<(), Error>(
        Error::InsufficientMemory,
    ))
}

/// Reads a name and defines it as a word that pushes the address of the data space after
/// its two-cell header (`CREATE`).
pub fn create(state: &mut ForthState) -> (r: ForthResult)
    requires old(state).wf(),
    ensures
        create_effect(old(state), final(state), r),
{
    let word = match state.input_stream.next_word() {
        Ok(w) => w,
        Err(e) => {
            return Err(e);
        },
    };
    if !state.has_data_room(8) {
        return Err(Error::InsufficientMemory);
    }
    let top = state.here_address();
    let address = top.plus_cell(Cells(3));
    state.data_space.push(ExecutionToken::Number(address.to_number()));
    state.data_space.push(ExecutionToken::LeafOperation(Operation::ControlFlowBreak));
    state.data_space.push(ExecutionToken::LeafOperation(Operation::ControlFlowBreak));
    state.definitions.add(word, Definition::new(ExecutionToken::Definition(top), false));
    Ok(())
}

/// What `variable` does to a machine, and what it answers.
pub open spec fn variable_effect<N: CellValue>(old: &ForthState, new: &ForthState, r: ForthResult) -> bool {
    &&& (new.wf())
    &&& (new.unchanged_except(
                old,
                set![Field::Input, Field::DataSpace, Field::Definitions],
            ))
    &&& (r is Ok ==> {
                let top = old.spec_here();
                &&& new.data_space.view() == old.data_space.view() + seq![
                    Value::ExecutionToken(ExecutionToken::Number((top.raw() + 24) as i64)),
                    Value::ExecutionToken(ExecutionToken::LeafOperation(Operation::ControlFlowBreak)),
                    Value::ExecutionToken(ExecutionToken::LeafOperation(Operation::ControlFlowBreak)),
                ] + Seq::new(N::spec_size(), |i: int| Value::Number(0))
                &&& new.definitions.spec_definitions() == old.definitions.spec_definitions().push(
                    Definition { execution_token: ExecutionToken::Definition(top), immediate: false },
                )
            })
    &&& (next_word_text(old.input_stream.spec_rest()) matches Err(e) ==> r == Err::<(), Error>(e))
    &&& (next_word_text(old.input_stream.spec_rest()) is Ok ==> (r is Ok <==> old.data_room(8)))
}

/// `CREATE` followed by room for one value of `N` (`VARIABLE`, `2VARIABLE`).
pub fn variable<N: CellValue>(state: &mut ForthState) -> (r: ForthResult)
    requires old(state).wf(),
    ensures
        variable_effect::<N>(old(state), final(state), r),
{
    match create(state) {
        Ok(()) => {},
        Err(e) => {
            return Err(e);
        },
    }
    proof {
        old(state).data_space.lemma_view_len();
        state.data_space.lemma_view_len();
        assert(state.data_room(2));
    }
    let r = state.push_data_none::<N>();
    r
}

/// What `constant` does to a machine, and what it answers.
pub open spec fn constant_effect<N: CellValue>(old: &ForthState, new: &ForthState, width: Width, r: ForthResult) -> bool {
    &&& (new.wf())
    &&& (new.unchanged_except(
                old,
                set![Field::Input, Field::DataSpace, Field::Definitions, Field::Stack],
            ))
    &&& (r is Ok ==> {
                let top = old.spec_here();
                let s = old.stack@;
                let n = N::spec_size();
                &&& s.len() >= n
                &&& new.stack@ == s.take(s.len() - n)
                &&& N::spec_from_stack(s.skip(s.len() - n)) matches Ok(v) && new.data_space.view()
                    == old.data_space.view() + seq![
                    Value::ExecutionToken(ExecutionToken::LeafOperation(Operation::ConstantRuntime(width))),
                ] + v.spec_memory_cells()
                &&& new.definitions.spec_definitions() == old.definitions.spec_definitions().push(
                    Definition { execution_token: ExecutionToken::Definition(top), immediate: false },
                )
            })
    &&& (next_word_text(old.input_stream.spec_rest()) matches Err(e) ==> r == Err::<(), Error>(e))
    &&& (next_word_text(old.input_stream.spec_rest()) is Ok ==> (r is Ok <==> old.data_room(8)
        && old.stack@.len() >= N::spec_size()))
}

/// Reads a name and defines it as a word that pushes the popped value of `N` (`CONSTANT`,
/// `2CONSTANT`).
pub fn constant<N: CellValue>(state: &mut ForthState, width: Width) -> (r: ForthResult)
    requires old(state).wf(),
    ensures
        constant_effect::<N>(old(state), final(state), width, r),
{
    let word = match state.input_stream.next_word() {
        Ok(w) => w,
        Err(e) => {
            return Err(e);
        },
    };
    if !state.has_data_room(8) {
        return Err(Error::InsufficientMemory);
    }
    let top = state.here_address();
    state.data_space.push(ExecutionToken::LeafOperation(Operation::ConstantRuntime(width)));
    let ghost s = state.stack@;
    let value = match state.stack.pop::<N>() {
        Ok(v) => v,
        Err(e) => {
            proof {
                if s.len() >= N::spec_size() {
                    N::lemma_stack_cells(s.skip(s.len() - N::spec_size()));
                }
            }
            return Err(e);
        },
    };
    state.data_space.push(value);
    state.definitions.add(word, Definition::new(ExecutionToken::Definition(top), false));
    Ok(())
}

/// What `constant_runtime` does to a machine, and what it answers.
pub open spec fn constant_runtime_effect<N: CellValue>(old: &ForthState, new: &ForthState, r: ForthResult) -> bool {
    &&& (new.wf())
    &&& (new.unchanged_except(old, set![Field::Stack, Field::ReturnStack, Field::Pointer]))
    &&& (old.instruction_pointer is None ==> r == Err::<(), Error>(Error::InvalidAddress))
    &&& (old.instruction_pointer matches Some(ip) ==> (old.spec_read_as::<N>(ip) matches Err(e) ==> r
                == Err::<(), Error>(e)))
    &&& (old.instruction_pointer matches Some(ip) ==> (old.spec_read_as::<N>(ip) matches Ok(v) ==> new.stack@
                == old.stack@ + v.spec_stack_cells()))
}

/// The run-time part of a constant: pushes the value stored at the instruction pointer and
/// returns.
pub fn constant_runtime<N: CellValue>(state: &mut ForthState) -> (r: ForthResult)
    requires old(state).wf(),
    ensures
        constant_runtime_effect::<N>(old(state), final(state), r),
{
    let ip = match state.instruction_pointer() {
        Some(ip) => ip,
        None => {
            return Err(Error::InvalidAddress);
        },
    };
    let value = match state.read::<N>(ip) {
        Ok(v) => v,
        Err(e) => {
            return Err(e);
        },
    };
    state.stack.push(value);
    state.return_from()
}

/// What `does` does to a machine, and what it answers.
pub open spec fn does_effect(old: &ForthState, new: &ForthState, r: ForthResult) -> bool {
    &&& (new.wf())
    &&& (new.unchanged_except(old, memory_fields().insert(Field::Pointer)))
    &&& (({
                let defs = old.definitions;
                if defs.spec_definitions().len() == 0 {
                    r is Ok && *new == *old
                } else {
                    match defs.spec_definitions()[defs.spec_most_recent() as int].execution_token {
                        ExecutionToken::Definition(object) => match old.instruction_pointer {
                            None => r == Err::<(), Error>(Error::InvalidAddress) && *new == *old,
                            Some(ip) => if object.raw() + CELL_SIZE > u64::MAX {
                                r == Err::<(), Error>(Error::InvalidAddress) && *new == *old
                            } else {
                                exists|mid: ForthState, w: ForthResult|
                                    {
                                        &&& #[trigger] ForthState::spec_write_effect(
                                            old,
                                            &mid,
                                            Address::spec_from_raw(object.raw() + CELL_SIZE),
                                            ExecutionToken::Definition(ip),
                                            w,
                                        )
                                        &&& w is Err ==> r == w && *new == mid
                                        &&& w is Ok ==> ForthState::returned(&mid, new, r)
                                    }
                            },
                        },
                        _ => r is Ok && *new == *old,
                    }
                }
            }))
}

/// Makes the latest definition, when it is a created word, run the code after `DOES>` (at
/// the instruction pointer), and returns (`DOES>`).
#[verifier::spinoff_prover]
#[verifier::rlimit(60)]
pub fn does(state: &mut ForthState) -> (r: ForthResult)
    requires old(state).wf(),
    ensures
        does_effect(old(state), final(state), r),
{
    if state.definitions.get_by_index(0).is_err() {
        return Ok(());
    }
    let object_address = match state.definitions.most_recent_definition().execution_token {
        ExecutionToken::Definition(address) => address,
        _ => {
            return Ok(());
        },
    };
    let ip = match state.instruction_pointer() {
        Some(ip) => ip,
        None => {
            return Err(Error::InvalidAddress);
        },
    };
    let target = match object_address.checked_plus_cell(Cells::one()) {
        Ok(t) => t,
        Err(e) => {
            return Err(e);
        },
    };
    let ghost mid = *state;
    let r = state.write(target, ExecutionToken::Definition(ip));
    proof {
        lemma_write_frame(&mid, state, target, ExecutionToken::Definition(ip), r);
    }
    let ghost after = *state;
    match r {
        Ok(()) => {},
        Err(e) => {
            assert(target == Address::spec_from_raw(object_address.raw() + CELL_SIZE));
            assert(ForthState::spec_write_effect(
                old(state),
                &after,
                Address::spec_from_raw(object_address.raw() + CELL_SIZE),
                ExecutionToken::Definition(ip),
                r,
            ));
            assert(*state == after);
            return Err(e);
        },
    }
    let r2 = state.return_from();
    assert(target == Address::spec_from_raw(object_address.raw() + CELL_SIZE));
    assert(ForthState::spec_write_effect(
        old(state),
        &after,
        Address::spec_from_raw(object_address.raw() + CELL_SIZE),
        ExecutionToken::Definition(ip),
        r,
    ));
    assert(ForthState::returned(&after, state, r2));
    r2
}

/// What `value` does to a machine, and what it answers.
pub open spec fn value_effect(old: &ForthState, new: &ForthState, r: ForthResult) -> bool {
    &&& (new.wf())
    &&& (new.unchanged_except(old, set![Field::Input, Field::Stack, Field::Definitions]))
    &&& (r is Ok ==> old.stack@.len() > 0 && new.stack@ == old.stack@.drop_last()
                && new.definitions.spec_definitions() == old.definitions.spec_definitions().push(
                Definition {
                    execution_token: ExecutionToken::Number(old.stack@.last().spec_to_number()),
                    immediate: false,
                },
            ))
    &&& (next_word_text(old.input_stream.spec_rest()) matches Err(e) ==> r == Err::<(), Error>(e))
    &&& (next_word_text(old.input_stream.spec_rest()) is Ok ==> (r is Ok <==> old.stack@.len() > 0))
}

/// Reads a name and defines it as pushing the popped number (`VALUE`).
pub fn value(state: &mut ForthState) -> (r: ForthResult)
    requires old(state).wf(),
    ensures
        value_effect(old(state), final(state), r),
{
    let word = match state.input_stream.next_word() {
        Ok(w) => w,
        Err(e) => {
            return Err(e);
        },
    };
    let ghost s = state.stack@;
    let number = match state.stack.pop::<i64>() {
        Ok(n) => n,
        Err(e) => {
            return Err(e);
        },
    };
    proof {
        assert(s.skip(s.len() - 1)[0] == s.last());
        assert(s.take(s.len() - 1) =~= s.drop_last());
    }
    state.definitions.add(word, Definition::new(ExecutionToken::Number(number), false));
    Ok(())
}

/// What `to` does to a machine, and what it answers.
pub open spec fn to_effect(old: &ForthState, new: &ForthState, r: ForthResult) -> bool {
    &&& (new.wf())
    &&& (new.unchanged_except(old, set![Field::Input, Field::DataSpace, Field::Compiled]))
    &&& (match next_word_text(old.input_stream.spec_rest()) {
                Err(e) => r == Err::<(), Error>(e),
                Ok(w) => {
                    let defs = old.definitions;
                    let i = latest_index(defs.spec_names(), w, defs.spec_names().len());
                    let j = latest_index(defs.spec_temp_names(), w, defs.spec_temp_names().len());
                    let index = if i >= 0 {
                        i
                    } else {
                        j
                    };
                    let runtime = if i >= 0 {
                        Operation::ToRuntime
                    } else {
                        Operation::ToLocalRuntime
                    };
                    if i < 0 && j < 0 {
                        r matches Err(Error::UnknownWord(u)) && u@ =~= w
                    } else if !old.data_room(4) {
                        r == Err::<(), Error>(Error::InsufficientMemory)
                    } else {
                        &&& r is Ok
                        &&& new.compiled_instructions@ =~= old.compiled_instructions@.push(
                            CompiledInstruction::Push(Value::Number(index as i64)),
                        )
                        &&& new.data_space@ =~= old.data_space@ + seq![
                            Value::ExecutionToken(ExecutionToken::CompiledInstruction(old.compiled_instructions@.len() as usize)),
                            Value::ExecutionToken(ExecutionToken::LeafOperation(runtime)),
                        ]
                    }
                },
            })
}

/// Compiles assigning a number to the next word (`TO`): a local gets its frame slot
/// written, any other word is redefined as pushing the number.
pub fn to(state: &mut ForthState) -> (r: ForthResult)
    requires old(state).wf(),
    ensures
        to_effect(old(state), final(state), r),
{
    let word = match state.input_stream.next_word() {
        Ok(w) => w,
        Err(e) => {
            return Err(e);
        },
    };
    let (index, runtime) = match state.definitions.get_nametag(word.as_str()) {
        Ok(NameTag::Definition(i)) => (i, Operation::ToRuntime),
        Ok(NameTag::TempDefinition(i)) => (i, Operation::ToLocalRuntime),
        Err(e) => {
            return Err(e);
        },
    };
    if !state.has_data_room(4) {
        return Err(Error::InsufficientMemory);
    }
    let xt = state.compiled_instructions.push(Value::Number(index as i64));
    state.data_space.push(xt);
    state.data_space.push(ExecutionToken::LeafOperation(runtime));
    Ok(())
}

/// What `to_runtime` does to a machine, and what it answers.
pub open spec fn to_runtime_effect(old: &ForthState, new: &ForthState, r: ForthResult) -> bool {
    &&& (new.wf())
    &&& (new.unchanged_except(old, set![Field::Stack, Field::Definitions]))
    &&& (({
                let s = old.stack@;
                if s.len() < 2 {
                    r == Err::<(), Error>(Error::StackUnderflow)
                } else {
                    let index = s.last().spec_to_number() as u64;
                    let n = s[s.len() - 2].spec_to_number();
                    &&& new.stack@ == s.take(s.len() - 2)
                    &&& index < old.definitions.spec_definitions().len() && index <= usize::MAX ==> r is Ok
                        && new.definitions.spec_definitions() == old.definitions.spec_definitions().update(
                        index as int,
                        Definition { execution_token: ExecutionToken::Number(n), immediate: false },
                    )
                    &&& index >= old.definitions.spec_definitions().len() || index > usize::MAX ==> r == Err::<(), Error>(
                        Error::InvalidNumber,
                    )
                }
            }))
}

/// The run-time part of `TO` on a word: pops the word's index and a number, and redefines
/// the word as pushing the number.
pub fn to_runtime(state: &mut ForthState) -> (r: ForthResult)
    requires old(state).wf(),
    ensures
        to_runtime_effect(old(state), final(state), r),
{
    let ghost s = state.stack@;
    let index = match state.stack.pop::<u64>() {
        Ok(i) => i,
        Err(e) => {
            return Err(e);
        },
    };
    let number = match state.stack.pop::<i64>() {
        Ok(n) => n,
        Err(e) => {
            return Err(e);
        },
    };
    proof {
        assert(s.skip(s.len() - 1)[0] == s.last());
        let s1 = s.take(s.len() - 1);
        assert(s1.skip(s1.len() - 1)[0] == s[s.len() - 2]);
        assert(s1.take(s1.len() - 1) =~= s.take(s.len() - 2));
    }
    if index > usize::MAX as u64 {
        return Err(Error::InvalidNumber);
    }
    let i = index as usize;
    assert(i as int == index as int);
    state.definitions.set_by_index(i, Definition::new(ExecutionToken::Number(number), false))
}

/// What `to_local_runtime` does to a machine, and what it answers.
pub open spec fn to_local_runtime_effect(old: &ForthState, new: &ForthState, r: ForthResult) -> bool {
    &&& (new.wf())
    &&& (new.unchanged_except(old, set![Field::Stack, Field::ReturnStack]))
    &&& (new.return_stack@.len() == old.return_stack@.len())
    &&& (new.return_stack.spec_frame_offset() == old.return_stack.spec_frame_offset())
    &&& (old.stack@.len() < 2 ==> r == Err::<(), Error>(Error::StackUnderflow))
    &&& (old.stack@.len() >= 2 ==> {
        let s = old.stack@;
        let offset = s.last().spec_to_number() as u64;
        let value = s[s.len() - 2];
        let rs = old.return_stack;
        let slot = frame_address(&rs, offset);
        let fits = (rs.spec_frame_offset() + offset) * CELL_SIZE + rs.spec_stack_base().raw() <= u64::MAX
            && write_fits(&rs, slot, 1);
        &&& new.stack@ == s.take(s.len() - 2)
        &&& (fits ==> r is Ok && forall|a: Address| rs.spec_contains(a) ==> #[trigger] new.return_stack.spec_read(a)
            == read_after_write(&rs, slot, value.spec_write_first(rs.spec_read(slot), slot), value.spec_write_second(), 1, true, a))
        &&& (!fits ==> r == Err::<(), Error>(Error::InvalidAddress) && new.return_stack@ == rs@)
    })
}

/// The run-time part of `TO` on a local: pops the local's slot and a value, and writes the
/// value into that slot of the current frame.
pub fn to_local_runtime(state: &mut ForthState) -> (r: ForthResult)
    requires old(state).wf(),
    ensures
        to_local_runtime_effect(old(state), final(state), r),
{
    let ghost s = state.stack@;
    let offset = match state.stack.pop::<u64>() {
        Ok(o) => o,
        Err(e) => {
            return Err(e);
        },
    };
    proof {
        assert(s.skip(s.len() - 1)[0] == s.last());
    }
    let ghost s1 = state.stack@;
    let value = match state.stack.pop::<Value>() {
        Ok(v) => v,
        Err(e) => {
            return Err(e);
        },
    };
    proof {
        assert(s1.skip(s1.len() - 1)[0] == s[s.len() - 2]);
        assert(state.stack@ =~= s.take(s.len() - 2));
    }
    state.return_stack.write_to_frame(offset, value)
}

/// What `cells` does to a machine, and what it answers.
pub open spec fn cells_effect(old: &ForthState, new: &ForthState, r: ForthResult) -> bool {
    &&& (new.wf())
    &&& (new.unchanged_except(old, set![Field::Stack]))
    &&& (old.stack@.len() == 0 ==> r == Err::<(), Error>(Error::StackUnderflow))
    &&& (old.stack@.len() > 0 ==> r is Ok && new.stack@ == old.stack@.drop_last().push(
                Value::Number(
                    vstd::wrapping::u64_specs::wrapping_mul(old.stack@.last().spec_to_number() as u64, 8) as i64,
                ),
            ))
}

/// Replaces a number of cells by that many bytes (`CELLS`).
pub fn cells(state: &mut ForthState) -> (r: ForthResult)
    requires old(state).wf(),
    ensures
        cells_effect(old(state), final(state), r),
{
    let ghost s = state.stack@;
    let n = match state.stack.pop::<u64>() {
        Ok(n) => n,
        Err(e) => {
            return Err(e);
        },
    };
    proof {
        assert(s.skip(s.len() - 1)[0] == s.last());
        assert(s.take(s.len() - 1) =~= s.drop_last());
    }
    state.stack.push(n.wrapping_mul(CELL_SIZE));
    proof {
        assert(state.stack@ =~= s.drop_last().push(
            Value::Number(vstd::wrapping::u64_specs::wrapping_mul(s.last().spec_to_number() as u64, 8) as i64),
        ));
    }
    Ok(())
}

/// What `map_anonymous` does to a machine, and what it answers.
pub open spec fn map_anonymous_effect(old: &ForthState, new: &ForthState, r: ForthResult) -> bool {
    &&& (new.wf())
    &&& (new.unchanged_except(old, set![Field::Stack, Field::Mappings]))
    &&& (old.stack@.len() == 0 ==> r == Err::<(), Error>(Error::StackUnderflow))
    &&& (r is Ok ==> new.stack@ == old.stack@.drop_last().push(
                Value::Number(old.next_anonymous_mapping.raw() as i64),
            ))
}

/// Pops a number of pages, maps that many fresh pages, and pushes their address (`MAP`).
pub fn map_anonymous(state: &mut ForthState) -> (r: ForthResult)
    requires old(state).wf(),
    ensures
        map_anonymous_effect(old(state), final(state), r),
{
    let ghost s = state.stack@;
    let pages = match state.stack.pop::<u64>() {
        Ok(n) => n,
        Err(e) => {
            return Err(e);
        },
    };
    proof {
        assert(s.take(s.len() - 1) =~= s.drop_last());
    }
    let address = match state.create_anonymous_mapping(Pages(pages)) {
        Ok(a) => a,
        Err(e) => {
            return Err(e);
        },
    };
    state.stack.push(address);
    proof {
        assert(state.stack@ =~= s.drop_last().push(Value::Number(old(state).next_anonymous_mapping.raw() as i64)));
    }
    Ok(())
}

/// What `allocate` does to a machine, and what it answers.
pub open spec fn allocate_effect(old: &ForthState, new: &ForthState, r: ForthResult) -> bool {
    &&& (new.wf())
    &&& (new.unchanged_except(old, set![Field::Stack, Field::Heap]))
    &&& (old.stack@.len() == 0 ==> r == Err::<(), Error>(Error::StackUnderflow))
    &&& (old.stack@.len() > 0 ==> r is Ok && ({
                let size = old.stack@.last().spec_to_number() as u64;
                let s = old.stack@.drop_last();
                if size as int + CELL_SIZE - 1 > u64::MAX {
                    new.stack@ == s.push(Value::Number(0)).push(Value::Number(-1i64))
                } else {
                    match old.heap.spec_allocation(crate::environment::units::div_ceil(size as int, 8) as nat) {
                        Ok(a) => new.stack@ == s.push(Value::Number(a.raw() as i64)).push(Value::Number(0)),
                        Err(_) => new.stack@ == s.push(Value::Number(0)).push(Value::Number(-1i64)),
                    }
                }
            }))
}

/// Pops a size in bytes and allocates that much of the heap: pushes the address and 0, or
/// 0 and -1 where the heap cannot serve it (`ALLOCATE`).
pub fn allocate(state: &mut ForthState) -> (r: ForthResult)
    requires old(state).wf(),
    ensures
        allocate_effect(old(state), final(state), r),
{
    let ghost s = state.stack@;
    let size = match state.stack.pop::<u64>() {
        Ok(n) => n,
        Err(e) => {
            return Err(e);
        },
    };
    proof {
        assert(s.skip(s.len() - 1)[0] == s.last());
        assert(s.take(s.len() - 1) =~= s.drop_last());
    }
    let result = if size > u64::MAX - (CELL_SIZE - 1) {
        Err(Error::InvalidSize)
    } else {
        state.heap.allocate(Bytes(size))
    };
    push_outcome(state, result);
    Ok(())
}

/// Pushes the outcome of a heap request: the address and 0, or 0 and -1.
fn push_outcome(state: &mut ForthState, result: Result<Address, Error>)
    requires old(state).wf(),
    ensures
        final(state).wf(),
        final(state).unchanged_except(old(state), set![Field::Stack]),
        match result {
            Ok(a) => final(state).stack@ == old(state).stack@.push(Value::Number(a.raw() as i64)).push(Value::Number(0)),
            Err(_) => final(state).stack@ == old(state).stack@.push(Value::Number(0)).push(Value::Number(-1i64)),
        },
{
    match result {
        Ok(address) => {
            state.stack.push(address);
            state.stack.push(0i64);
            assert(state.stack@ =~= old(state).stack@.push(Value::Number(address.raw() as i64)).push(Value::Number(0)));
        },
        Err(_) => {
            state.stack.push(0i64);
            state.stack.push(-1i64);
            assert(state.stack@ =~= old(state).stack@.push(Value::Number(0)).push(Value::Number(-1i64)));
        },
    }
}

/// What `free` does to a machine, and what it answers.
pub open spec fn free_effect(old: &ForthState, new: &ForthState, r: ForthResult) -> bool {
    &&& (new.wf())
    &&& (new.unchanged_except(old, set![Field::Stack, Field::Heap]))
    &&& (old.stack@.len() == 0 ==> r == Err::<(), Error>(Error::StackUnderflow))
    &&& (old.stack@.len() > 0 ==> r is Ok && new.stack@ == old.stack@.drop_last().push(
                Value::Number(
                    if old.heap.spec_range_of(address_of(old.stack@.last())) is Some {
                        0
                    } else {
                        -1i64
                    },
                ),
            ))
}

/// Pops an address and gives its heap chunk back: pushes 0, or -1 where the address is not
/// in the heap (`FREE`).
pub fn free(state: &mut ForthState) -> (r: ForthResult)
    requires old(state).wf(),
    ensures
        free_effect(old(state), final(state), r),
{
    let address = match pop_address(state) {
        Ok(a) => a,
        Err(e) => {
            return Err(e);
        },
    };
    let ghost s1 = state.stack@;
    match state.heap.free(address) {
        Ok(_) => state.stack.push(0i64),
        Err(_) => state.stack.push(-1i64),
    }
    proof {
        let v = Value::Number(
            if old(state).heap.spec_range_of(address_of(old(state).stack@.last())) is Some {
                0
            } else {
                -1i64
            },
        );
        assert(state.stack@ =~= s1.push(v));
    }
    Ok(())
}

/// What `resize` does to a machine, and what it answers.
pub open spec fn resize_effect(old: &ForthState, new: &ForthState, r: ForthResult) -> bool {
    &&& (new.wf())
    &&& (new.unchanged_except(old, set![Field::Stack, Field::Heap]))
    &&& (old.stack@.len() < 2 ==> r == Err::<(), Error>(Error::StackUnderflow))
    &&& (old.stack@.len() >= 2 ==> r is Ok && new.stack@.len() == old.stack@.len())
    &&& (old.stack@.len() >= 2 ==> {
        let s = old.stack@;
        let size = s.last().spec_to_number() as u64;
        let address = address_of(s[s.len() - 2]);
        let answer = if size as int + CELL_SIZE - 1 > u64::MAX {
            Err(Error::InvalidSize)
        } else {
            old.heap.spec_resize_result(address, crate::environment::units::div_ceil(size as int, 8) as nat)
        };
        new.stack@ == s.take(s.len() - 2) + outcome_cells(answer)
    })
}

/// The two cells a heap request leaves: the address and 0, or 0 and -1.
pub open spec fn outcome_cells(answer: Result<Address, Error>) -> Seq<Value> {
    match answer {
        Ok(a) => seq![Value::Number(a.raw() as i64), Value::Number(0)],
        Err(_) => seq![Value::Number(0), Value::Number(-1i64)],
    }
}

/// Pops a size and an address, and resizes that heap chunk: pushes the (possibly new)
/// address and 0, or 0 and -1 (`RESIZE`).
pub fn resize(state: &mut ForthState) -> (r: ForthResult)
    requires old(state).wf(),
    ensures
        resize_effect(old(state), final(state), r),
{
    let ghost s = state.stack@;
    let size = match state.stack.pop::<u64>() {
        Ok(n) => n,
        Err(e) => {
            return Err(e);
        },
    };
    proof {
        assert(s.skip(s.len() - 1)[0] == s.last());
    }
    let ghost s1 = state.stack@;
    let address = match pop_address(state) {
        Ok(a) => a,
        Err(e) => {
            return Err(e);
        },
    };
    proof {
        assert(s1.last() == s[s.len() - 2]);
        assert(state.stack@ =~= s.take(s.len() - 2));
    }
    let result = if size > u64::MAX - (CELL_SIZE - 1) {
        Err(Error::InvalidSize)
    } else {
        state.heap.resize(address, Bytes(size))
    };
    let ghost s2 = state.stack@;
    push_outcome(state, result);
    proof {
        assert(state.stack@ =~= s2 + outcome_cells(result));
    }
    Ok(())
}

/// The words of this module: each name, whether it is immediate, and its operation.
pub open spec fn operation_table() -> Seq<(&'static str, bool, Operation)> {
    seq![
        ("HERE", false, Operation::Here),
        ("ALLOT", false, Operation::Allot),
        ("CREATE", false, Operation::Create),
        ("DOES>", false, Operation::Does),
        ("VALUE", false, Operation::Value),
        ("CELLS", false, Operation::Cells),
        ("TO", true, Operation::To),
        ("MAP", false, Operation::MapAnonymous),
        ("ALLOCATE", false, Operation::Allocate),
        ("FREE", false, Operation::Free),
        ("RESIZE", false, Operation::Resize),
        ("VARIABLE", false, Operation::Variable(Width::Single)),
        ("CONSTANT", false, Operation::Constant(Width::Single)),
        ("2VARIABLE", false, Operation::Variable(Width::Double)),
        ("2CONSTANT", false, Operation::Constant(Width::Double)),
    ]
}

/// The data words with their names.
pub fn get_operations() -> (r: Vec<(&'static str, bool, Operation)>)
    ensures r@ == operation_table(),
{
    let mut v: Vec<(&'static str, bool, Operation)> = Vec::new();
    v.push(("HERE", false, Operation::Here));
    v.push(("ALLOT", false, Operation::Allot));
    v.push(("CREATE", false, Operation::Create));
    v.push(("DOES>", false, Operation::Does));
    v.push(("VALUE", false, Operation::Value));
    v.push(("CELLS", false, Operation::Cells));
    v.push(("TO", true, Operation::To));
    v.push(("MAP", false, Operation::MapAnonymous));
    v.push(("ALLOCATE", false, Operation::Allocate));
    v.push(("FREE", false, Operation::Free));
    v.push(("RESIZE", false, Operation::Resize));
    v.push(("VARIABLE", false, Operation::Variable(Width::Single)));
    v.push(("CONSTANT", false, Operation::Constant(Width::Single)));
    v.push(("2VARIABLE", false, Operation::Variable(Width::Double)));
    v.push(("2CONSTANT", false, Operation::Constant(Width::Double)));
    assert(v@ =~= operation_table());
    v
}

} // verus!
