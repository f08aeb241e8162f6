use vstd::prelude::*;
use crate::environment::memory::Address;
use crate::environment::units::{Bytes, Cells, CELL_SIZE};
use crate::environment::value::{DoubleValue, Value, ValueVariant};
use crate::evaluate::definition::ExecutionToken;
use crate::compiled_instructions::CompiledInstruction;
use crate::evaluate::execution::{lemma_write_frame, memory_fields, Field};
use crate::evaluate::{Error, ForthResult, ForthState};
use crate::operations::memory_operations::{address_of, pop_address};
use crate::operations::{Operation, Width};
use crate::operations::string_operations::{all_bytes_readable, byte_at, popped};

verus! {

/// The cell that executes `op`.
pub open spec fn op_cell(op: Operation) -> Value {
    Value::ExecutionToken(ExecutionToken::LeafOperation(op))
}

/// Appends the cell that executes `op` to the data space.
pub fn postpone_operation(state: &mut ForthState, op: Operation) -> (r: ForthResult)
    requires old(state).wf(),
    ensures
        final(state).wf(),
        old(state).data_room(2) ==> r is Ok && final(state).data_space.view() == old(state).data_space.view().push(
            op_cell(op),
        ) && final(state).unchanged_except(old(state), set![Field::DataSpace])
            && final(state).data_space.spec_length() == old(state).data_space.spec_length() + 1,
        !old(state).data_room(2) ==> r == Err::<(), Error>(Error::InsufficientMemory) && *final(state) == *old(state),
{
    let r = state.push_data(ExecutionToken::LeafOperation(op));
    proof {
        assert(old(state).data_space.view() + seq![op_cell(op)] =~= old(state).data_space.view().push(op_cell(op)));
    }
    r
}

/// What `control_flow_break` does to a machine, and what it answers.
pub open spec fn control_flow_break_effect(old: &ForthState, new: &ForthState, r: ForthResult) -> bool {
    &&& (new.wf())
    &&& (new.unchanged_except(old, set![Field::ReturnStack, Field::Pointer]))
    &&& (new.current_instruction == old.current_instruction)
    &&& (ForthState::returned(old, new, r))
}

/// Returns from the current definition (`BREAK`).
pub fn control_flow_break(state: &mut ForthState) -> (r: ForthResult)
    requires old(state).wf(),
    ensures
        control_flow_break_effect(old(state), final(state), r),
{
    state.return_from()
}

/// What `do_init_loop` does to a machine, and what it answers.
pub open spec fn do_init_loop_effect(old: &ForthState, new: &ForthState, r: ForthResult) -> bool {
    &&& (new.wf())
    &&& (new.unchanged_except(old, set![Field::DataSpace, Field::Stack]))
    &&& (old.data_room(8) ==> r is Ok && new.data_space.view() =~= old.data_space.view()
                + seq![
                Value::Number(0),
                op_cell(Operation::StackToReturnStack(Width::Single)),
                op_cell(Operation::StackToReturnStack(Width::Double)),
            ] && new.stack@ =~= old.stack@.push(Value::Number((old.spec_here().raw() + 24) as i64)))
}

/// Starts a counted loop (`DO`): leaves a cell for the address of the loop's end, compiles
/// moving it and the bounds to the return stack, and pushes the loop's start address.
pub fn do_init_loop(state: &mut ForthState) -> (r: ForthResult)
    requires old(state).wf(),
    ensures
        do_init_loop_effect(old(state), final(state), r),
{
    if !state.has_data_room(8) {
        return Err(Error::InsufficientMemory);
    }
    state.data_space.push(Value::Number(0));
    state.data_space.push(ExecutionToken::LeafOperation(Operation::StackToReturnStack(Width::Single)));
    state.data_space.push(ExecutionToken::LeafOperation(Operation::StackToReturnStack(Width::Double)));
    let top = state.here_address();
    state.stack.push(top.to_number());
    proof {
        assert(state.stack@ =~= old(state).stack@.push(Value::Number((old(state).spec_here().raw() + 24) as i64)));
    }
    Ok(())
}

/// What `loop_runtime` does to a machine, and what it answers.
pub open spec fn loop_runtime_effect(old: &ForthState, new: &ForthState, r: ForthResult) -> bool {
    &&& (new.wf())
    &&& (new.unchanged_except(old, set![Field::Stack, Field::ReturnStack]))
    &&& (new.return_stack.spec_frame_offset() == old.return_stack.spec_frame_offset())
    &&& (({
                let s = old.stack@;
                let rs = old.return_stack@;
                if s.len() >= 1 && rs.len() >= 2 {
                    let step = s.last().spec_to_number();
                    let start = rs.last().spec_to_number();
                    let end = rs[rs.len() - 2].spec_to_number();
                    let next = vstd::wrapping::i64_specs::wrapping_add(start, step);
                    &&& r is Ok
                    &&& new.stack@ =~= s.drop_last().push(Value::Number(if next >= end { 1 } else { 0 }))
                    &&& new.return_stack@ =~= rs.drop_last().drop_last().push(Value::Number(end)).push(
                        Value::Number(next),
                    )
                } else {
                    r == Err::<(), Error>(Error::StackUnderflow)
                }
            }))
}

/// One step of a counted loop at run time: pops the step from the data stack and the index
/// and limit from the return stack, puts back the limit and the moved index, and pushes
/// whether the index has reached the limit.
pub fn loop_runtime(state: &mut ForthState) -> (r: ForthResult)
    requires old(state).wf(),
    ensures
        loop_runtime_effect(old(state), final(state), r),
{
    let ghost s = state.stack@;
    let ghost rs = state.return_stack@;
    let step = match state.stack.pop::<i64>() {
        Ok(x) => x,
        Err(e) => {
            return Err(e);
        },
    };
    let start = match state.return_stack.pop::<i64>() {
        Ok(x) => x,
        Err(e) => {
            return Err(e);
        },
    };
    let end = match state.return_stack.pop::<i64>() {
        Ok(x) => x,
        Err(e) => {
            return Err(e);
        },
    };
    proof {
        assert(s.skip(s.len() - 1)[0] == s.last());
        assert(rs.skip(rs.len() - 1)[0] == rs.last());
        let rs1 = rs.take(rs.len() - 1);
        assert(rs1.skip(rs1.len() - 1)[0] == rs[rs.len() - 2]);
        assert(s.take(s.len() - 1) =~= s.drop_last());
        assert(rs1.take(rs1.len() - 1) =~= rs.drop_last().drop_last());
    }
    let next = start.wrapping_add(step);
    let flag: i64 = if next >= end { 1 } else { 0 };
    state.stack.push(flag);
    state.return_stack.push(end);
    state.return_stack.push(next);
    Ok(())
}

/// What `loop_epilogue` does to a machine, and what it answers.
pub open spec fn loop_epilogue_effect(old: &ForthState, new: &ForthState, r: ForthResult) -> bool {
    &&& (new.wf())
    &&& (new.unchanged_except(old, set![Field::ReturnStack]))
    &&& (new.return_stack.spec_frame_offset() == old.return_stack.spec_frame_offset())
    &&& (old.return_stack@.len() >= 3 ==> r is Ok && new.return_stack@ == old.return_stack@.take(
                old.return_stack@.len() - 3,
            ))
    &&& (old.return_stack@.len() < 3 ==> r == Err::<(), Error>(Error::StackUnderflow))
}

/// The clean-up after a counted loop at run time: drops the index, the limit and the
/// address of the loop's end from the return stack.
pub fn loop_epilogue(state: &mut ForthState) -> (r: ForthResult)
    requires old(state).wf(),
    ensures
        loop_epilogue_effect(old(state), final(state), r),
{
    let ghost rs = state.return_stack@;
    match state.return_stack.pop::<DoubleValue>() {
        Ok(_) => {},
        Err(e) => {
            return Err(e);
        },
    }
    match state.return_stack.pop::<Value>() {
        Ok(_) => {},
        Err(e) => {
            return Err(e);
        },
    }
    proof {
        assert(rs.take(rs.len() - 2).take(rs.len() - 3) =~= rs.take(rs.len() - 3));
    }
    Ok(())
}

/// `new` is `old` after the cell `cells` cells before `loop_address` was set to push the
/// address of the end of the data space: where a loop ends.
pub open spec fn loop_end_patched(old: &ForthState, new: &ForthState, loop_address: Address, cells: nat, r: ForthResult) -> bool {
    if loop_address.raw() < cells * CELL_SIZE {
        r == Err::<(), Error>(Error::InvalidAddress) && *new == *old
    } else {
        ForthState::spec_write_effect(
            old,
            new,
            Address::spec_from_raw(loop_address.raw() - cells * CELL_SIZE),
            ExecutionToken::Number(old.spec_here().raw() as i64),
            r,
        )
    }
}

/// A cell that runs compiled instruction `n`.
pub open spec fn instruction_cell(n: nat) -> Value {
    Value::ExecutionToken(ExecutionToken::CompiledInstruction(n as usize))
}

/// `mid` is `old` with the top of the stack popped, `compiled` compiled, and `cells` appended to
/// the data space.
pub open spec fn loop_closed(old: &ForthState, mid: &ForthState, compiled: CompiledInstruction, cells: Seq<Value>) -> bool {
    &&& mid.wf()
    &&& mid.unchanged_except(old, set![Field::Stack, Field::DataSpace, Field::Compiled])
    &&& mid.stack@ == old.stack@.drop_last()
    &&& mid.compiled_instructions@ == old.compiled_instructions@.push(compiled)
    &&& mid.data_space@ == old.data_space@ + cells
    &&& mid.data_space.spec_length() == old.data_space.spec_length() + cells.len()
}

/// What `loop_plus_compiletime` does to a machine, and what it answers.
pub open spec fn loop_plus_compiletime_effect(old: &ForthState, new: &ForthState, r: ForthResult) -> bool {
    &&& (new.wf())
    &&& (new.unchanged_except(old, memory_fields().insert(Field::Compiled)))
    &&& (old.stack@.len() == 0 ==> r is Err)
    &&& (old.stack@.len() > 0 && !old.data_room(4) ==> r == Err::<(), Error>(Error::InsufficientMemory))
    &&& (old.stack@.len() > 0 && old.data_room(4) ==> {
                let a = address_of(old.stack@.last());
                let n = old.compiled_instructions@.len();
                exists|mid: ForthState|
                    {
                        &&& loop_closed(
                            old,
                            &mid,
                            CompiledInstruction::BranchFalse(a),
                            seq![op_cell(Operation::LoopRuntime), instruction_cell(n), op_cell(Operation::LoopEpilogue)],
                        )
                        &&& #[trigger] loop_end_patched(&mid, new, a, 3, r)
                    }
            })
}

/// Ends a counted loop with an explicit step (`+LOOP`): compiles the loop step, a branch
/// back to the loop's start while the index is below the limit, and the clean-up; then
/// stores the address after the loop in the cell `DO` left.
pub fn loop_plus_compiletime(state: &mut ForthState) -> (r: ForthResult)
    requires old(state).wf(),
    ensures
        loop_plus_compiletime_effect(old(state), final(state), r),
{
    match postpone_operation(state, Operation::LoopRuntime) {
        Ok(()) => {},
        Err(e) => {
            return Err(e);
        },
    }
    let loop_address = match pop_address(state) {
        Ok(a) => a,
        Err(e) => {
            return Err(e);
        },
    };
    let xt = state.compiled_instructions.branch_false(loop_address);
    match state.push_data(xt) {
        Ok(()) => {},
        Err(e) => {
            return Err(e);
        },
    }
    match postpone_operation(state, Operation::LoopEpilogue) {
        Ok(()) => {},
        Err(e) => {
            return Err(e);
        },
    }
    let ghost mid = *state;
    proof {
        let cells = seq![
            op_cell(Operation::LoopRuntime),
            instruction_cell(old(state).compiled_instructions@.len()),
            op_cell(Operation::LoopEpilogue),
        ];
        assert(mid.data_space@ =~= old(state).data_space@ + cells);
        assert(loop_closed(old(state), &mid, CompiledInstruction::BranchFalse(loop_address), cells));
    }
    let r = patch_loop_end(state, loop_address, 3);
    assert(loop_end_patched(&mid, state, loop_address, 3, r));
    r
}

/// Stores the current end of the data space, as a number to push, `cells` cells before
/// `loop_address`.
fn patch_loop_end(state: &mut ForthState, loop_address: Address, cells: u64) -> (r: ForthResult)
    requires old(state).wf(), cells <= 3,
    ensures
        final(state).wf(),
        final(state).unchanged_except(old(state), memory_fields()),
        loop_end_patched(old(state), final(state), loop_address, cells as nat, r),
{
    if loop_address.0.0 < cells * CELL_SIZE {
        return Err(Error::InvalidAddress);
    }
    let target = loop_address.minus_cell(Cells(cells));
    let top = state.here_address();
    let r = state.write(target, ExecutionToken::Number(top.to_number()));
    proof {
        lemma_write_frame(old(state), state, target, ExecutionToken::Number(top.raw() as i64), r);
    }
    r
}

/// What `loop_compiletime` does to a machine, and what it answers.
pub open spec fn loop_compiletime_effect(old: &ForthState, new: &ForthState, r: ForthResult) -> bool {
    &&& (new.wf())
    &&& (new.unchanged_except(old, memory_fields().insert(Field::Compiled)))
    &&& (old.stack@.len() == 0 ==> r is Err)
    &&& (old.stack@.len() > 0 && !old.data_room(5) ==> r == Err::<(), Error>(Error::InsufficientMemory))
    &&& (old.stack@.len() > 0 && old.data_room(5) ==> {
                let a = address_of(old.stack@.last());
                let n = old.compiled_instructions@.len();
                exists|mid: ForthState|
                    {
                        &&& loop_closed(
                            old,
                            &mid,
                            CompiledInstruction::BranchFalse(a),
                            seq![
                                Value::ExecutionToken(ExecutionToken::Number(1)),
                                op_cell(Operation::LoopRuntime),
                                instruction_cell(n),
                                op_cell(Operation::LoopEpilogue),
                            ],
                        )
                        &&& #[trigger] loop_end_patched(&mid, new, a, 3, r)
                    }
            })
}

/// Ends a counted loop with step 1 (`LOOP`).
pub fn loop_compiletime(state: &mut ForthState) -> (r: ForthResult)
    requires old(state).wf(),
    ensures
        loop_compiletime_effect(old(state), final(state), r),
{
    match state.push_data(ExecutionToken::Number(1)) {
        Ok(()) => {},
        Err(e) => {
            return Err(e);
        },
    }
    let ghost s1 = *state;
    let r = loop_plus_compiletime(state);
    proof {
        let s = old(state).stack@;
        if s.len() > 0 && old(state).data_room(5) {
            let a = address_of(s.last());
            let n = old(state).compiled_instructions@.len();
            let tail = seq![op_cell(Operation::LoopRuntime), instruction_cell(n), op_cell(Operation::LoopEpilogue)];
            let mid = choose|mid: ForthState|
                {
                    &&& loop_closed(&s1, &mid, CompiledInstruction::BranchFalse(a), tail)
                    &&& #[trigger] loop_end_patched(&mid, state, a, 3, r)
                };
            let cells = seq![Value::ExecutionToken(ExecutionToken::Number(1))] + tail;
            assert(mid.data_space@ =~= old(state).data_space@ + cells);
            assert(cells =~= seq![
                Value::ExecutionToken(ExecutionToken::Number(1)),
                op_cell(Operation::LoopRuntime),
                instruction_cell(n),
                op_cell(Operation::LoopEpilogue),
            ]);
            assert(loop_closed(old(state), &mid, CompiledInstruction::BranchFalse(a), cells));
        }
    }
    r
}

/// What `begin_loop` does to a machine, and what it answers.
pub open spec fn begin_loop_effect(old: &ForthState, new: &ForthState, r: ForthResult) -> bool {
    &&& (new.wf())
    &&& (new.unchanged_except(old, set![Field::DataSpace, Field::Stack]))
    &&& (old.data_room(8) ==> r is Ok && new.data_space.view() =~= old.data_space.view()
                + seq![Value::Number(0), op_cell(Operation::StackToReturnStack(Width::Single))]
                && new.stack@ =~= old.stack@.push(Value::Number((old.spec_here().raw() + 16) as i64)))
}

/// Starts an indefinite loop (`BEGIN`): leaves a cell for the address of the loop's end,
/// compiles moving it to the return stack, and pushes the loop's start address.
pub fn begin_loop(state: &mut ForthState) -> (r: ForthResult)
    requires old(state).wf(),
    ensures
        begin_loop_effect(old(state), final(state), r),
{
    if !state.has_data_room(8) {
        return Err(Error::InsufficientMemory);
    }
    state.data_space.push(Value::Number(0));
    state.data_space.push(ExecutionToken::LeafOperation(Operation::StackToReturnStack(Width::Single)));
    let top = state.here_address();
    state.stack.push(top.to_number());
    proof {
        assert(state.stack@ =~= old(state).stack@.push(Value::Number((old(state).spec_here().raw() + 16) as i64)));
    }
    Ok(())
}

/// What `until_loop` does to a machine, and what it answers.
pub open spec fn until_loop_effect(old: &ForthState, new: &ForthState, r: ForthResult) -> bool {
    &&& (new.wf())
    &&& (new.unchanged_except(old, memory_fields().insert(Field::Compiled)))
    &&& (old.stack@.len() == 0 ==> r == Err::<(), Error>(Error::StackUnderflow))
    &&& (old.stack@.len() > 0 && !old.data_room(2) ==> r == Err::<(), Error>(Error::InsufficientMemory))
    &&& (old.stack@.len() > 0 && old.data_room(2) ==> {
                let a = address_of(old.stack@.last());
                let n = old.compiled_instructions@.len();
                exists|mid: ForthState|
                    {
                        &&& loop_closed(old, &mid, CompiledInstruction::BranchFalse(a), seq![instruction_cell(n)])
                        &&& #[trigger] loop_end_patched(&mid, new, a, 2, r)
                    }
            })
}

/// Ends a loop with a conditional branch back to its start (`UNTIL`).
pub fn until_loop(state: &mut ForthState) -> (r: ForthResult)
    requires old(state).wf(),
    ensures
        until_loop_effect(old(state), final(state), r),
{
    let loop_address = match pop_address(state) {
        Ok(a) => a,
        Err(e) => {
            return Err(e);
        },
    };
    let xt = state.compiled_instructions.branch_false(loop_address);
    match state.push_data(xt) {
        Ok(()) => {},
        Err(e) => {
            return Err(e);
        },
    }
    patch_loop_end(state, loop_address, 2)
}

/// What `again_loop` does to a machine, and what it answers.
pub open spec fn again_loop_effect(old: &ForthState, new: &ForthState, r: ForthResult) -> bool {
    &&& (new.wf())
    &&& (new.unchanged_except(old, memory_fields().insert(Field::Compiled)))
    &&& (old.stack@.len() == 0 ==> r == Err::<(), Error>(Error::StackUnderflow))
    &&& (old.stack@.len() > 0 && !old.data_room(2) ==> r == Err::<(), Error>(Error::InsufficientMemory))
    &&& (old.stack@.len() > 0 && old.data_room(2) ==> {
                let a = address_of(old.stack@.last());
                let n = old.compiled_instructions@.len();
                exists|mid: ForthState|
                    {
                        &&& loop_closed(old, &mid, CompiledInstruction::Branch(a), seq![instruction_cell(n)])
                        &&& #[trigger] loop_end_patched(&mid, new, a, 2, r)
                    }
            })
}

/// Ends a loop with an unconditional branch back to its start (`AGAIN`).
pub fn again_loop(state: &mut ForthState) -> (r: ForthResult)
    requires old(state).wf(),
    ensures
        again_loop_effect(old(state), final(state), r),
{
    let loop_address = match pop_address(state) {
        Ok(a) => a,
        Err(e) => {
            return Err(e);
        },
    };
    let xt = state.compiled_instructions.branch(loop_address);
    match state.push_data(xt) {
        Ok(()) => {},
        Err(e) => {
            return Err(e);
        },
    }
    patch_loop_end(state, loop_address, 2)
}

/// What `while_loop` does to a machine, and what it answers.
pub open spec fn while_loop_effect(old: &ForthState, new: &ForthState, r: ForthResult) -> bool {
    &&& (new.wf())
    &&& (new.unchanged_except(old, set![Field::DataSpace, Field::Stack]))
    &&& (old.data_room(2) ==> r is Ok && new.data_space.view() == old.data_space.view().push(
                Value::Number(0),
            ) && new.stack@ == old.stack@.push(Value::Number(old.spec_here().raw() as i64)))
}

/// Marks the test of a `BEGIN ... WHILE ... REPEAT` loop: pushes the address of a cell left
/// for the conditional branch out of the loop.
pub fn while_loop(state: &mut ForthState) -> (r: ForthResult)
    requires old(state).wf(),
    ensures
        while_loop_effect(old(state), final(state), r),
{
    if !state.has_data_room(2) {
        return Err(Error::InsufficientMemory);
    }
    let top = state.here_address();
    state.stack.push(top.to_number());
    state.data_space.push(Value::Number(0));
    proof {
        assert(state.stack@ =~= old(state).stack@.push(Value::Number(old(state).spec_here().raw() as i64)));
        assert(old(state).data_space.view() + seq![Value::Number(0)] =~= old(state).data_space.view().push(
            Value::Number(0),
        ));
    }
    Ok(())
}

/// What `repeat_loop` does to a machine, and what it answers.
pub open spec fn repeat_loop_effect(old: &ForthState, new: &ForthState, r: ForthResult) -> bool {
    &&& (new.wf())
    &&& (new.unchanged_except(old, memory_fields().insert(Field::Compiled)))
    &&& (old.stack@.len() < 2 ==> r == Err::<(), Error>(Error::StackUnderflow))
    &&& (old.stack@.len() >= 2 && !old.data_room(2) ==> r == Err::<(), Error>(Error::InsufficientMemory))
    &&& (old.stack@.len() >= 2 && old.data_room(2) ==> {
        let s = old.stack@;
        let start = address_of(s[s.len() - 2]);
        let after_branch = Address::spec_from_raw(old.spec_here().raw() + CELL_SIZE);
        new.compiled_instructions@ == old.compiled_instructions@.push(CompiledInstruction::Branch(start)).push(
            CompiledInstruction::BranchFalse(after_branch),
        )
    })
}

/// Ends a `BEGIN ... WHILE ... REPEAT` loop: branches back to the start, and fills in the
/// conditional branch left by `WHILE` to jump past the loop.
pub fn repeat_loop(state: &mut ForthState) -> (r: ForthResult)
    requires old(state).wf(),
    ensures
        repeat_loop_effect(old(state), final(state), r),
{
    let branch_address = match pop_address(state) {
        Ok(a) => a,
        Err(e) => {
            return Err(e);
        },
    };
    let loop_start_address = match pop_address(state) {
        Ok(a) => a,
        Err(e) => {
            return Err(e);
        },
    };
    let xt = state.compiled_instructions.branch(loop_start_address);
    match state.push_data(xt) {
        Ok(()) => {},
        Err(e) => {
            return Err(e);
        },
    }
    let middle = state.here_address();
    let xt2 = state.compiled_instructions.branch_false(middle);
    match xt2.write_to_memory(&mut state.data_space, branch_address) {
        Ok(()) => {},
        Err(e) => {
            return Err(e);
        },
    }
    patch_loop_end(state, loop_start_address, 2)
}

/// What `leave` does to a machine, and what it answers.
pub open spec fn leave_effect(old: &ForthState, new: &ForthState, r: ForthResult) -> bool {
    &&& (new.wf())
    &&& (new.unchanged_except(old, set![Field::ReturnStack, Field::Pointer]))
    &&& (new.current_instruction == old.current_instruction)
    &&& (({
                let rs = old.return_stack@;
                if rs.len() >= 3 {
                    r is Ok && new.return_stack@ == rs.take(rs.len() - 3) && new.instruction_pointer
                        == Some(address_of(rs[rs.len() - 3]))
                } else {
                    r == Err::<(), Error>(Error::StackUnderflow)
                }
            }))
}

/// Leaves the innermost loop (`LEAVE`): drops its index and limit and jumps to the address
/// of its end, all taken from the return stack.
pub fn leave(state: &mut ForthState) -> (r: ForthResult)
    requires old(state).wf(),
    ensures
        leave_effect(old(state), final(state), r),
{
    let ghost rs = state.return_stack@;
    match state.return_stack.pop::<DoubleValue>() {
        Ok(_) => {},
        Err(e) => {
            return Err(e);
        },
    }
    let end = match state.return_stack.pop::<Address>() {
        Ok(a) => a,
        Err(e) => {
            return Err(e);
        },
    };
    proof {
        let rs2 = rs.take(rs.len() - 2);
        assert(rs2.skip(rs2.len() - 1)[0] == rs[rs.len() - 3]);
        assert(rs2.take(rs2.len() - 1) =~= rs.take(rs.len() - 3));
    }
    state.jump_to(end)
}

/// What `exit` does to a machine, and what it answers.
pub open spec fn exit_effect(old: &ForthState, new: &ForthState, r: ForthResult) -> bool {
    &&& (new.wf())
    &&& (new.unchanged_except(old, set![Field::ReturnStack, Field::Pointer]))
    &&& (new.current_instruction == old.current_instruction)
    &&& (ForthState::returned(old, new, r))
}

/// Returns from the current definition (`EXIT`).
pub fn exit(state: &mut ForthState) -> (r: ForthResult)
    requires old(state).wf(),
    ensures
        exit_effect(old(state), final(state), r),
{
    state.return_from()
}

/// What `throw` does to a machine, and what it answers.
pub open spec fn throw_effect(old: &ForthState, new: &ForthState, r: ForthResult) -> bool {
    &&& (new.wf())
    &&& (new.unchanged_except(old, set![Field::Stack]))
    &&& (old.stack@.len() == 0 ==> r == Err::<(), Error>(Error::StackUnderflow))
    &&& (old.stack@.len() > 0 ==> r == Err::<(), Error>(
                Error::Exception(old.stack@.last().spec_to_number() as u64),
            ) && new.stack@ == old.stack@.drop_last())
}

/// Pops an error code and fails with it (`THROW`).
pub fn throw(state: &mut ForthState) -> (r: ForthResult)
    requires old(state).wf(),
    ensures
        throw_effect(old(state), final(state), r),
{
    let ghost s = state.stack@;
    let code = match state.stack.pop::<u64>() {
        Ok(c) => c,
        Err(e) => {
            return Err(e);
        },
    };
    proof {
        assert(s.skip(s.len() - 1)[0] == s.last());
        assert(s.take(s.len() - 1) =~= s.drop_last());
    }
    Err(Error::Exception(code))
}

/// What `evaluate_string` does to a machine, and what it answers.
pub open spec fn evaluate_string_effect(old: &ForthState, new: &ForthState, r: ForthResult) -> bool {
    &&& (new.wf())
    &&& (new.unchanged_except(old, set![Field::Stack, Field::Input]))
    &&& (old.stack@.len() < 2 ==> r == Err::<(), Error>(Error::StackUnderflow))
    &&& (old.stack@.len() >= 2 ==> exists|mid: ForthState|
        #[trigger] popped(old, mid, 2) && evaluate_string_answer(&mid, old, new, r))
}

/// What `evaluate_string` answers, and the stack and input it leaves, where the bytes are
/// read from `mid` and the machine started as `old`.
pub open spec fn evaluate_string_answer(mid: &ForthState, old: &ForthState, new: &ForthState, r: ForthResult) -> bool {
    let s = old.stack@;
    let length = s.last().spec_to_number() as u64;
    let address = address_of(s[s.len() - 2]);
    let rest = old.input_stream.spec_rest();
    let added = new.input_stream.spec_rest().len() - rest.len();
    &&& (r is Ok <==> all_bytes_readable(mid, address, length as int))
    &&& (r is Ok ==> {
        &&& new.stack@ == s.take(s.len() - 2)
        &&& added == length
        &&& new.input_stream.spec_rest().skip(added) == rest
        &&& text_of_bytes(mid, address, length as int, new.input_stream.spec_rest().take(added))
    })
}

/// Pops a length and an address, and puts the bytes stored there in front of the input
/// (`EVALUATE`).
pub fn evaluate_string(state: &mut ForthState) -> (r: ForthResult)
    requires old(state).wf(),
    ensures
        evaluate_string_effect(old(state), final(state), r),
{
    let ghost s = state.stack@;
    let length = match state.stack.pop::<u64>() {
        Ok(l) => l,
        Err(e) => {
            return Err(e);
        },
    };
    proof {
        assert(s.skip(s.len() - 1)[0] == s.last());
    }
    let ghost s1 = state.stack@;
    let address = match pop_address(state) {
        Ok(a) => a,
        Err(e) => {
            return Err(e);
        },
    };
    let ghost mid = *state;
    proof {
        assert(s1.last() == s[s.len() - 2]);
        assert(mid.stack@ =~= s.take(s.len() - 2));
        assert(popped(old(state), mid, 2));
    }
    let chars = match read_chars(state, address, length) {
        Ok(c) => c,
        Err(e) => {
            assert(evaluate_string_answer(&mid, old(state), state, Err(e)));
            return Err(e);
        },
    };
    let ghost text = chars@;
    state.input_stream.prepend_stream(chars);
    proof {
        let rest = old(state).input_stream.spec_rest();
        let now = state.input_stream.spec_rest();
        assert(now.skip(text.len() as int) =~= rest);
        assert(now.take(text.len() as int) =~= text);
        assert(evaluate_string_answer(&mid, old(state), state, Ok(())));
    }
    Ok(())
}

/// Whether `text` is the characters whose codes are the `count` bytes at `address`, as
/// `state` reads them.
pub open spec fn text_of_bytes(state: &ForthState, address: Address, count: int, text: Seq<char>) -> bool {
    &&& text.len() == count
    &&& forall|i: int|
        0 <= i < count ==> (#[trigger] byte_at(state, address, i) matches Ok(b) && text[i] as int == b as int)
}

/// The `length` bytes stored from `address` on, as characters.
pub fn read_chars(state: &ForthState, address: Address, length: u64) -> (r: Result<Vec<char>, Error>)
    requires state.wf(),
    ensures
        r matches Ok(v) ==> v@.len() == length && forall|i: int|
            0 <= i < length ==> state.spec_read_as::<u8>(Address::spec_from_raw(address.raw() + i))
                == Ok::<u8, Error>(#[trigger] v@[i] as u8),
        r is Ok <==> all_bytes_readable(state, address, length as int),
        r matches Ok(v) ==> text_of_bytes(state, address, length as int, v@),
{
    let mut chars: Vec<char> = Vec::new();
    let mut i: u64 = 0;
    while i < length
        invariant
            state.wf(),
            i <= length,
            chars@.len() == i,
            forall|k: int|
                0 <= k < i ==> state.spec_read_as::<u8>(Address::spec_from_raw(address.raw() + k))
                    == Ok::<u8, Error>(#[trigger] chars@[k] as u8),
            all_bytes_readable(state, address, i as int),
            text_of_bytes(state, address, i as int, chars@),
        decreases length - i,
    {
        let a = match address.checked_plus(Bytes(i)) {
            Ok(a) => a,
            Err(e) => {
                assert(byte_at(state, address, i as int) is Err);
                return Err(e);
            },
        };
        let c = match state.read::<u8>(a) {
            Ok(c) => c,
            Err(e) => {
                assert(byte_at(state, address, i as int) is Err);
                return Err(e);
            },
        };
        chars.push(char_of_byte(c));
        i = i + 1;
    }
    Ok(chars)
}

/// The character with the code of a byte.
pub fn char_of_byte(b: u8) -> (r: char)
    ensures r as int == b as int,
{
    b as char
}

/// The words of this module: each name, whether it is immediate, and its operation.
pub open spec fn operation_table() -> Seq<(&'static str, bool, Operation)> {
    seq![
        ("BREAK", false, Operation::ControlFlowBreak),
        ("DO", true, Operation::DoInitLoop),
        ("+LOOP", true, Operation::LoopPlusCompiletime),
        ("LOOP", true, Operation::LoopCompiletime),
        ("BEGIN", true, Operation::BeginLoop),
        ("UNTIL", true, Operation::UntilLoop),
        ("AGAIN", true, Operation::AgainLoop),
        ("WHILE", true, Operation::WhileLoop),
        ("REPEAT", true, Operation::RepeatLoop),
        ("LEAVE", false, Operation::Leave),
        ("EXIT", false, Operation::Exit),
        ("THROW", false, Operation::Throw),
        ("EVALUATE", false, Operation::EvaluateString),
    ]
}

/// The control-flow words with their names.
pub fn get_operations() -> (r: Vec<(&'static str, bool, Operation)>)
    ensures r@ == operation_table(),
{
    let mut v: Vec<(&'static str, bool, Operation)> = Vec::new();
    v.push(("BREAK", false, Operation::ControlFlowBreak));
    v.push(("DO", true, Operation::DoInitLoop));
    v.push(("+LOOP", true, Operation::LoopPlusCompiletime));
    v.push(("LOOP", true, Operation::LoopCompiletime));
    v.push(("BEGIN", true, Operation::BeginLoop));
    v.push(("UNTIL", true, Operation::UntilLoop));
    v.push(("AGAIN", true, Operation::AgainLoop));
    v.push(("WHILE", true, Operation::WhileLoop));
    v.push(("REPEAT", true, Operation::RepeatLoop));
    v.push(("LEAVE", false, Operation::Leave));
    v.push(("EXIT", false, Operation::Exit));
    v.push(("THROW", false, Operation::Throw));
    v.push(("EVALUATE", false, Operation::EvaluateString));
    assert(v@ =~= operation_table());
    v
}

} // verus!
