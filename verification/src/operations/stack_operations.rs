use vstd::prelude::*;
use crate::environment::stack::Stack;
use crate::environment::value::{CellValue, DoubleValue, Value, ValueVariant};
use crate::evaluate::{Error, ForthResult, ForthState};
use crate::operations::{Operation, Width};

verus! {

/// The `k`-th group of `n` cells from the top of `s` (the top group is number 0).
pub open spec fn group(s: Seq<Value>, n: nat, k: nat) -> Seq<Value> {
    s.subrange(s.len() - k * n - n, s.len() - k * n)
}

/// `s` without its top `k` groups of `n` cells.
pub open spec fn below(s: Seq<Value>, n: nat, k: nat) -> Seq<Value> {
    s.take(s.len() - k * n)
}

/// Pops a value of `T` off `stack`.
pub fn pop_group<T: CellValue>(stack: &mut Stack) -> (r: Result<T, Error>)
    ensures
        final(stack).spec_stack_base() == old(stack).spec_stack_base(),
        final(stack).spec_frame_offset() == old(stack).spec_frame_offset(),
        old(stack)@.len() >= T::spec_size() ==> (r matches Ok(v) && v.spec_stack_cells() == group(
            old(stack)@,
            T::spec_size(),
            0,
        )) && final(stack)@ == below(old(stack)@, T::spec_size(), 1),
        old(stack)@.len() < T::spec_size() ==> r == Err::<T, Error>(Error::StackUnderflow) && final(stack)@
            == Seq::<Value>::empty(),
{
    let ghost s = stack@;
    let r = stack.pop::<T>();
    proof {
        if s.len() >= T::spec_size() {
            T::lemma_stack_cells(s.skip(s.len() - T::spec_size()));
            assert(group(s, T::spec_size(), 0) =~= s.skip(s.len() - T::spec_size()));
            assert(below(s, T::spec_size(), 1) =~= s.take(s.len() - T::spec_size()));
        }
    }
    r
}

/// What `stack_to_return_stack` does to a machine, and what it answers.
pub open spec fn stack_to_return_stack_effect<T: CellValue>(old: &ForthState, new: &ForthState, r: ForthResult) -> bool {
    &&& (new.same_except_stacks(old))
    &&& (new.return_stack.spec_frame_offset() == old.return_stack.spec_frame_offset())
    &&& (({
                let s = old.stack@;
                let n = T::spec_size();
                if s.len() >= n {
                    r is Ok && new.stack@ == below(s, n, 1) && new.return_stack@
                        == old.return_stack@ + group(s, n, 0)
                } else {
                    r == Err::<(), Error>(Error::StackUnderflow) && new.stack@ == Seq::<Value>::empty()
                        && new.return_stack@ == old.return_stack@
                }
            }))
}

/// Moves a value from the data stack to the return stack (`>R`, `2>R`).
pub fn stack_to_return_stack<T: CellValue>(state: &mut ForthState) -> (r: ForthResult)

    ensures
        stack_to_return_stack_effect::<T>(old(state), final(state), r),
{
    let v = match pop_group::<T>(&mut state.stack) {
        Ok(v) => v,
        Err(e) => {
            return Err(e);
        },
    };
    state.return_stack.push(v);
    Ok(())
}

/// What `return_stack_to_stack` does to a machine, and what it answers.
pub open spec fn return_stack_to_stack_effect<T: CellValue>(old: &ForthState, new: &ForthState, r: ForthResult) -> bool {
    &&& (new.same_except_stacks(old))
    &&& (new.return_stack.spec_frame_offset() == old.return_stack.spec_frame_offset())
    &&& (({
                let s = old.return_stack@;
                let n = T::spec_size();
                if s.len() >= n {
                    r is Ok && new.return_stack@ == below(s, n, 1) && new.stack@
                        == old.stack@ + group(s, n, 0)
                } else {
                    r == Err::<(), Error>(Error::StackUnderflow) && new.return_stack@
                        == Seq::<Value>::empty() && new.stack@ == old.stack@
                }
            }))
}

/// Moves a value from the return stack to the data stack (`R>`, `2R>`).
pub fn return_stack_to_stack<T: CellValue>(state: &mut ForthState) -> (r: ForthResult)

    ensures
        return_stack_to_stack_effect::<T>(old(state), final(state), r),
{
    let v = match pop_group::<T>(&mut state.return_stack) {
        Ok(v) => v,
        Err(e) => {
            return Err(e);
        },
    };
    state.stack.push(v);
    Ok(())
}

/// What `copy_from_return_stack` does to a machine, and what it answers.
pub open spec fn copy_from_return_stack_effect<T: CellValue>(old: &ForthState, new: &ForthState, r: ForthResult) -> bool {
    &&& (new.same_except_stacks(old))
    &&& (new.return_stack.spec_frame_offset() == old.return_stack.spec_frame_offset())
    &&& (({
                let s = old.return_stack@;
                let n = T::spec_size();
                if s.len() >= n {
                    r is Ok && new.return_stack@ == s && new.stack@ == old.stack@ + group(
                        s,
                        n,
                        0,
                    )
                } else {
                    r == Err::<(), Error>(Error::StackUnderflow) && new.return_stack@
                        == Seq::<Value>::empty() && new.stack@ == old.stack@
                }
            }))
}

/// Copies the top value of the return stack to the data stack (`R@`, `2R@`).
pub fn copy_from_return_stack<T: CellValue>(state: &mut ForthState) -> (r: ForthResult)

    ensures
        copy_from_return_stack_effect::<T>(old(state), final(state), r),
{
    let ghost s = state.return_stack@;
    let v = match pop_group::<T>(&mut state.return_stack) {
        Ok(v) => v,
        Err(e) => {
            return Err(e);
        },
    };
    state.return_stack.push(v);
    state.stack.push(v);
    proof {
        assert(below(s, T::spec_size(), 1) + group(s, T::spec_size(), 0) =~= s);
    }
    Ok(())
}

/// What `push_stack_frame` does to a machine, and what it answers.
pub open spec fn push_stack_frame_effect(old: &ForthState, new: &ForthState, r: ForthResult) -> bool {
    &&& (r is Ok)
    &&& (new.same_except_stacks(old))
    &&& (new.stack@ == old.stack@)
    &&& (new.return_stack@ == old.return_stack@.push(
                Value::Number(old.return_stack.spec_frame_offset() as i64),
            ))
    &&& (new.return_stack.spec_frame_offset() == old.return_stack@.len() + 1)
}

/// Starts a new frame on the return stack.
pub fn push_stack_frame(state: &mut ForthState) -> (r: ForthResult)

    ensures
        push_stack_frame_effect(old(state), final(state), r),
{
    state.return_stack.push_frame();
    Ok(())
}

/// What `pop_stack_frame` does to a machine, and what it answers.
pub open spec fn pop_stack_frame_effect(old: &ForthState, new: &ForthState, r: ForthResult) -> bool {
    &&& (new.same_except_stacks(old))
    &&& (new.stack@ == old.stack@)
    &&& (({
                let rs = old.return_stack;
                let kept = if rs.spec_frame_offset() <= rs@.len() {
                    rs@.take(rs.spec_frame_offset() as int)
                } else {
                    rs@
                };
                if rs.spec_frame_offset() == 0 {
                    r is Ok && new.return_stack@ == kept && new.return_stack.spec_frame_offset() == 0
                } else if kept.len() == 0 {
                    r == Err::<(), Error>(Error::StackUnderflow) && new.return_stack@ == kept
                } else {
                    r is Ok && new.return_stack@ == kept.drop_last()
                        && new.return_stack.spec_frame_offset() == kept.last().spec_to_number() as u64 as usize
                }
            }))
}

/// Drops the current frame of the return stack.
pub fn pop_stack_frame(state: &mut ForthState) -> (r: ForthResult)

    ensures
        pop_stack_frame_effect(old(state), final(state), r),
{
    state.return_stack.pop_frame()
}

/// What `dup` does to a machine, and what it answers.
pub open spec fn dup_effect<T: CellValue>(old: &ForthState, new: &ForthState, r: ForthResult) -> bool {
    &&& (new.same_except_stack(old))
    &&& (new.stack.spec_stack_base() == old.stack.spec_stack_base())
    &&& (new.stack.spec_frame_offset() == old.stack.spec_frame_offset())
    &&& (({
                let s = old.stack@;
                let n = T::spec_size();
                if s.len() >= n {
                    r is Ok && new.stack@ == s + group(s, n, 0)
                } else {
                    r == Err::<(), Error>(Error::StackUnderflow) && new.stack@ == Seq::<Value>::empty()
                }
            }))
}

/// Duplicates the top value (`DUP`, `2DUP`).
pub fn dup<T: CellValue>(state: &mut ForthState) -> (r: ForthResult)

    ensures
        dup_effect::<T>(old(state), final(state), r),
{
    let ghost s = state.stack@;
    let v = match pop_group::<T>(&mut state.stack) {
        Ok(v) => v,
        Err(e) => {
            return Err(e);
        },
    };
    state.stack.push(v);
    state.stack.push(v);
    proof {
        assert(below(s, T::spec_size(), 1) + group(s, T::spec_size(), 0) =~= s);
    }
    Ok(())
}

/// What `maybe_dup` does to a machine, and what it answers.
pub open spec fn maybe_dup_effect<T: CellValue>(old: &ForthState, new: &ForthState, r: ForthResult) -> bool {
    &&& (new.same_except_stack(old))
    &&& (({
                let s = old.stack@;
                let n = T::spec_size();
                if s.len() == 0 {
                    r == Err::<(), Error>(Error::StackUnderflow) && new.stack@ == Seq::<Value>::empty()
                } else if s.last().spec_to_number() == 0 {
                    r is Ok && new.stack@ == s
                } else if s.len() >= n {
                    r is Ok && new.stack@ == s + group(s, n, 0)
                } else {
                    r == Err::<(), Error>(Error::StackUnderflow) && new.stack@ == Seq::<Value>::empty()
                }
            }))
}

/// Duplicates the top value where the top cell is a nonzero number (`?DUP`, `2?DUP`).
pub fn maybe_dup<T: CellValue>(state: &mut ForthState) -> (r: ForthResult)

    ensures
        maybe_dup_effect::<T>(old(state), final(state), r),
{
    let ghost s = state.stack@;
    let top = match state.stack.peek::<Value>() {
        Ok(v) => v,
        Err(e) => {
            return Err(e);
        },
    };
    proof {
        assert(s.skip(s.len() - 1)[0] == s.last());
        assert(s.take(s.len() - 1) + seq![s.last()] =~= s);
    }
    if top.to_number() != 0 {
        dup::<T>(state)
    } else {
        Ok(())
    }
}

/// What `drop` does to a machine, and what it answers.
pub open spec fn drop_effect<T: CellValue>(old: &ForthState, new: &ForthState, r: ForthResult) -> bool {
    &&& (new.same_except_stack(old))
    &&& (({
                let s = old.stack@;
                let n = T::spec_size();
                if s.len() >= n {
                    r is Ok && new.stack@ == below(s, n, 1)
                } else {
                    r == Err::<(), Error>(Error::StackUnderflow) && new.stack@ == Seq::<Value>::empty()
                }
            }))
}

/// Removes the top value (`DROP`, `2DROP`).
pub fn drop<T: CellValue>(state: &mut ForthState) -> (r: ForthResult)

    ensures
        drop_effect::<T>(old(state), final(state), r),
{
    match pop_group::<T>(&mut state.stack) {
        Ok(_) => Ok(()),
        Err(e) => Err(e),
    }
}

/// Pops two values of `T`: the top one first.
fn pop_two<T: CellValue>(stack: &mut Stack) -> (r: Result<(T, T), Error>)
    ensures
        final(stack).spec_stack_base() == old(stack).spec_stack_base(),
        final(stack).spec_frame_offset() == old(stack).spec_frame_offset(),
        old(stack)@.len() >= 2 * T::spec_size() ==> (r matches Ok((a, b)) && a.spec_stack_cells() == group(
            old(stack)@,
            T::spec_size(),
            0,
        ) && b.spec_stack_cells() == group(old(stack)@, T::spec_size(), 1)) && final(stack)@ == below(
            old(stack)@,
            T::spec_size(),
            2,
        ),
        old(stack)@.len() < 2 * T::spec_size() ==> r == Err::<(T, T), Error>(Error::StackUnderflow)
            && final(stack)@ == Seq::<Value>::empty(),
{
    let ghost s = stack@;
    let a = match pop_group::<T>(stack) {
        Ok(a) => a,
        Err(e) => {
            return Err(e);
        },
    };
    let ghost s1 = stack@;
    let b = match pop_group::<T>(stack) {
        Ok(b) => b,
        Err(e) => {
            return Err(e);
        },
    };
    proof {
        let n = T::spec_size();
        assert(group(s1, n, 0) =~= group(s, n, 1));
        assert(below(s1, n, 1) =~= below(s, n, 2));
    }
    Ok((a, b))
}

/// Pops three values of `T`: the top one first.
fn pop_three<T: CellValue>(stack: &mut Stack) -> (r: Result<(T, T, T), Error>)
    ensures
        final(stack).spec_stack_base() == old(stack).spec_stack_base(),
        final(stack).spec_frame_offset() == old(stack).spec_frame_offset(),
        old(stack)@.len() >= 3 * T::spec_size() ==> (r matches Ok((a, b, c)) && a.spec_stack_cells() == group(
            old(stack)@,
            T::spec_size(),
            0,
        ) && b.spec_stack_cells() == group(old(stack)@, T::spec_size(), 1) && c.spec_stack_cells() == group(
            old(stack)@,
            T::spec_size(),
            2,
        )) && final(stack)@ == below(old(stack)@, T::spec_size(), 3),
        old(stack)@.len() < 3 * T::spec_size() ==> r == Err::<(T, T, T), Error>(Error::StackUnderflow)
            && final(stack)@ == Seq::<Value>::empty(),
{
    let ghost s = stack@;
    let (a, b) = match pop_two::<T>(stack) {
        Ok(p) => p,
        Err(e) => {
            return Err(e);
        },
    };
    let ghost s2 = stack@;
    let c = match pop_group::<T>(stack) {
        Ok(c) => c,
        Err(e) => {
            return Err(e);
        },
    };
    proof {
        let n = T::spec_size();
        assert(group(s2, n, 0) =~= group(s, n, 2));
        assert(below(s2, n, 1) =~= below(s, n, 3));
    }
    Ok((a, b, c))
}

/// What `swap` does to a machine, and what it answers.
pub open spec fn swap_effect<T: CellValue>(old: &ForthState, new: &ForthState, r: ForthResult) -> bool {
    &&& (new.same_except_stack(old))
    &&& (({
                let s = old.stack@;
                let n = T::spec_size();
                if s.len() >= 2 * n {
                    r is Ok && new.stack@ == below(s, n, 2) + group(s, n, 0) + group(s, n, 1)
                } else {
                    r == Err::<(), Error>(Error::StackUnderflow) && new.stack@ == Seq::<Value>::empty()
                }
            }))
}

/// Exchanges the top two values (`SWAP`, `2SWAP`).
pub fn swap<T: CellValue>(state: &mut ForthState) -> (r: ForthResult)

    ensures
        swap_effect::<T>(old(state), final(state), r),
{
    let (a, b) = match pop_two::<T>(&mut state.stack) {
        Ok(p) => p,
        Err(e) => {
            return Err(e);
        },
    };
    state.stack.push(a);
    state.stack.push(b);
    Ok(())
}

/// What `over` does to a machine, and what it answers.
pub open spec fn over_effect<T: CellValue>(old: &ForthState, new: &ForthState, r: ForthResult) -> bool {
    &&& (new.same_except_stack(old))
    &&& (({
                let s = old.stack@;
                let n = T::spec_size();
                if s.len() >= 2 * n {
                    r is Ok && new.stack@ == below(s, n, 2) + group(s, n, 1) + group(s, n, 0) + group(s, n, 1)
                } else {
                    r == Err::<(), Error>(Error::StackUnderflow) && new.stack@ == Seq::<Value>::empty()
                }
            }))
}

/// Copies the second value to the top (`OVER`, `2OVER`).
pub fn over<T: CellValue>(state: &mut ForthState) -> (r: ForthResult)

    ensures
        over_effect::<T>(old(state), final(state), r),
{
    let (a, b) = match pop_two::<T>(&mut state.stack) {
        Ok(p) => p,
        Err(e) => {
            return Err(e);
        },
    };
    state.stack.push(b);
    state.stack.push(a);
    state.stack.push(b);
    Ok(())
}

/// What `rot` does to a machine, and what it answers.
pub open spec fn rot_effect<T: CellValue>(old: &ForthState, new: &ForthState, r: ForthResult) -> bool {
    &&& (new.same_except_stack(old))
    &&& (({
                let s = old.stack@;
                let n = T::spec_size();
                if s.len() >= 3 * n {
                    r is Ok && new.stack@ == below(s, n, 3) + group(s, n, 1) + group(s, n, 0) + group(s, n, 2)
                } else {
                    r == Err::<(), Error>(Error::StackUnderflow) && new.stack@ == Seq::<Value>::empty()
                }
            }))
}

/// Moves the third value to the top (`ROT`, `2ROT`).
pub fn rot<T: CellValue>(state: &mut ForthState) -> (r: ForthResult)

    ensures
        rot_effect::<T>(old(state), final(state), r),
{
    let (a, b, c) = match pop_three::<T>(&mut state.stack) {
        Ok(p) => p,
        Err(e) => {
            return Err(e);
        },
    };
    state.stack.push(b);
    state.stack.push(a);
    state.stack.push(c);
    Ok(())
}

/// What `nrot` does to a machine, and what it answers.
pub open spec fn nrot_effect<T: CellValue>(old: &ForthState, new: &ForthState, r: ForthResult) -> bool {
    &&& (new.same_except_stack(old))
    &&& (({
                let s = old.stack@;
                let n = T::spec_size();
                if s.len() >= 3 * n {
                    r is Ok && new.stack@ == below(s, n, 3) + group(s, n, 2) + group(s, n, 0) + group(s, n, 1)
                } else {
                    r == Err::<(), Error>(Error::StackUnderflow) && new.stack@ == Seq::<Value>::empty()
                }
            }))
}

/// Reorders the top three values as `-ROT` does here: the third goes to the bottom of the
/// three, with the top one above it and the second on top.
pub fn nrot<T: CellValue>(state: &mut ForthState) -> (r: ForthResult)

    ensures
        nrot_effect::<T>(old(state), final(state), r),
{
    let (a, b, c) = match pop_three::<T>(&mut state.stack) {
        Ok(p) => p,
        Err(e) => {
            return Err(e);
        },
    };
    state.stack.push(c);
    state.stack.push(a);
    state.stack.push(b);
    Ok(())
}

/// What `nip` does to a machine, and what it answers.
pub open spec fn nip_effect<T: CellValue>(old: &ForthState, new: &ForthState, r: ForthResult) -> bool {
    &&& (new.same_except_stack(old))
    &&& (({
                let s = old.stack@;
                let n = T::spec_size();
                if s.len() >= 2 * n {
                    r is Ok && new.stack@ == below(s, n, 2) + group(s, n, 0)
                } else {
                    r == Err::<(), Error>(Error::StackUnderflow) && new.stack@ == Seq::<Value>::empty()
                }
            }))
}

/// Removes the second value (`NIP`, `2NIP`).
pub fn nip<T: CellValue>(state: &mut ForthState) -> (r: ForthResult)

    ensures
        nip_effect::<T>(old(state), final(state), r),
{
    let (a, _b) = match pop_two::<T>(&mut state.stack) {
        Ok(p) => p,
        Err(e) => {
            return Err(e);
        },
    };
    state.stack.push(a);
    Ok(())
}

/// What `tuck` does to a machine, and what it answers.
pub open spec fn tuck_effect<T: CellValue>(old: &ForthState, new: &ForthState, r: ForthResult) -> bool {
    &&& (new.same_except_stack(old))
    &&& (({
                let s = old.stack@;
                let n = T::spec_size();
                if s.len() >= 2 * n {
                    r is Ok && new.stack@ == below(s, n, 2) + group(s, n, 0) + group(s, n, 1) + group(s, n, 0)
                } else {
                    r == Err::<(), Error>(Error::StackUnderflow) && new.stack@ == Seq::<Value>::empty()
                }
            }))
}

/// Copies the top value below the second (`TUCK`, `2TUCK`).
pub fn tuck<T: CellValue>(state: &mut ForthState) -> (r: ForthResult)

    ensures
        tuck_effect::<T>(old(state), final(state), r),
{
    let (a, b) = match pop_two::<T>(&mut state.stack) {
        Ok(p) => p,
        Err(e) => {
            return Err(e);
        },
    };
    state.stack.push(a);
    state.stack.push(b);
    state.stack.push(a);
    Ok(())
}

/// The words of this module: each name, whether it is immediate, and its operation.
pub open spec fn operation_table() -> Seq<(&'static str, bool, Operation)> {
    seq![
        (">R", false, Operation::StackToReturnStack(Width::Single)),
        ("R>", false, Operation::ReturnStackToStack(Width::Single)),
        ("R@", false, Operation::CopyFromReturnStack(Width::Single)),
        ("DUP", false, Operation::Dup(Width::Single)),
        ("?DUP", false, Operation::MaybeDup(Width::Single)),
        ("DROP", false, Operation::Drop(Width::Single)),
        ("SWAP", false, Operation::Swap(Width::Single)),
        ("OVER", false, Operation::Over(Width::Single)),
        ("ROT", false, Operation::Rot(Width::Single)),
        ("-ROT", false, Operation::NRot(Width::Single)),
        ("NIP", false, Operation::Nip(Width::Single)),
        ("TUCK", false, Operation::Tuck(Width::Single)),
        ("2>R", false, Operation::StackToReturnStack(Width::Double)),
        ("2R>", false, Operation::ReturnStackToStack(Width::Double)),
        ("2R@", false, Operation::CopyFromReturnStack(Width::Double)),
        ("2DUP", false, Operation::Dup(Width::Double)),
        ("2?DUP", false, Operation::MaybeDup(Width::Double)),
        ("2DROP", false, Operation::Drop(Width::Double)),
        ("2SWAP", false, Operation::Swap(Width::Double)),
        ("2OVER", false, Operation::Over(Width::Double)),
        ("2ROT", false, Operation::Rot(Width::Double)),
        ("2-ROT", false, Operation::NRot(Width::Double)),
        ("2NIP", false, Operation::Nip(Width::Double)),
        ("2TUCK", false, Operation::Tuck(Width::Double)),
        ("PUSH_FRAME", false, Operation::PushStackFrame),
        ("POP_FRAME", false, Operation::PopStackFrame),
    ]
}

/// The stack words, with their names: the single-cell ones, the `2`-prefixed double-cell
/// ones, and the frame words.
pub fn get_operations() -> (r: Vec<(&'static str, bool, Operation)>)
    ensures r@ == operation_table(),
{
    let mut v: Vec<(&'static str, bool, Operation)> = Vec::new();
    v.push((">R", false, Operation::StackToReturnStack(Width::Single)));
    v.push(("R>", false, Operation::ReturnStackToStack(Width::Single)));
    v.push(("R@", false, Operation::CopyFromReturnStack(Width::Single)));
    v.push(("DUP", false, Operation::Dup(Width::Single)));
    v.push(("?DUP", false, Operation::MaybeDup(Width::Single)));
    v.push(("DROP", false, Operation::Drop(Width::Single)));
    v.push(("SWAP", false, Operation::Swap(Width::Single)));
    v.push(("OVER", false, Operation::Over(Width::Single)));
    v.push(("ROT", false, Operation::Rot(Width::Single)));
    v.push(("-ROT", false, Operation::NRot(Width::Single)));
    v.push(("NIP", false, Operation::Nip(Width::Single)));
    v.push(("TUCK", false, Operation::Tuck(Width::Single)));
    v.push(("2>R", false, Operation::StackToReturnStack(Width::Double)));
    v.push(("2R>", false, Operation::ReturnStackToStack(Width::Double)));
    v.push(("2R@", false, Operation::CopyFromReturnStack(Width::Double)));
    v.push(("2DUP", false, Operation::Dup(Width::Double)));
    v.push(("2?DUP", false, Operation::MaybeDup(Width::Double)));
    v.push(("2DROP", false, Operation::Drop(Width::Double)));
    v.push(("2SWAP", false, Operation::Swap(Width::Double)));
    v.push(("2OVER", false, Operation::Over(Width::Double)));
    v.push(("2ROT", false, Operation::Rot(Width::Double)));
    v.push(("2-ROT", false, Operation::NRot(Width::Double)));
    v.push(("2NIP", false, Operation::Nip(Width::Double)));
    v.push(("2TUCK", false, Operation::Tuck(Width::Double)));
    v.push(("PUSH_FRAME", false, Operation::PushStackFrame));
    v.push(("POP_FRAME", false, Operation::PopStackFrame));
    assert(v@ =~= operation_table());
    v
}

} // verus!
