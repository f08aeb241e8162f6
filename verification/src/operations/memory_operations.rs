use vstd::prelude::*;
use crate::environment::memory::Address;
use crate::environment::value::{DoubleValue, Value, ValueVariant};
use crate::evaluate::execution::Field;
use crate::evaluate::{Error, ForthResult, ForthState};
use crate::operations::{MemoryWidth, Operation};

verus! {

/// The address a cell holding a number stands for.
pub open spec fn address_of(v: Value) -> Address {
    Address::spec_from_u64(v.spec_to_number() as u64)
}

/// Pops an address (as a number) off the data stack.
pub fn pop_address(state: &mut ForthState) -> (r: Result<Address, Error>)
    requires old(state).wf(),
    ensures
        final(state).wf(),
        final(state).unchanged_except(old(state), set![Field::Stack]),
        old(state).stack@.len() > 0 ==> r == Ok::<Address, Error>(address_of(old(state).stack@.last()))
            && final(state).stack@ == old(state).stack@.drop_last(),
        old(state).stack@.len() == 0 ==> r == Err::<Address, Error>(Error::StackUnderflow) && final(state).stack@
            == old(state).stack@,
{
    let ghost s = state.stack@;
    let r = state.stack.pop::<Address>();
    proof {
        if s.len() > 0 {
            assert(s.skip(s.len() - 1)[0] == s.last());
            assert(s.take(s.len() - 1) =~= s.drop_last());
        }
    }
    r
}

/// What `dereference` does to a machine, and what it answers.
pub open spec fn dereference_effect<N: ValueVariant>(old: &ForthState, new: &ForthState, r: ForthResult) -> bool {
    &&& (new.wf())
    &&& (new.unchanged_except(old, set![Field::Stack]))
    &&& (old.stack@.len() == 0 ==> r == Err::<(), Error>(Error::StackUnderflow))
    &&& (old.stack@.len() > 0 ==> exists|mid: ForthState|
                {
                    &&& mid.unchanged_except(old, set![Field::Stack])
                    &&& mid.stack@ == old.stack@.drop_last()
                    &&& match #[trigger] mid.spec_read_as::<N>(address_of(old.stack@.last())) {
                        Ok(v) => r is Ok && new.stack@ == mid.stack@ + v.spec_stack_cells(),
                        Err(e) => r == Err::<(), Error>(e) && new.stack@ == mid.stack@,
                    }
                })
}

/// Replaces the address on top of the stack by the value of type `N` read there (`@`,
/// `C@`, `2@`).
pub fn dereference<N: ValueVariant>(state: &mut ForthState) -> (r: ForthResult)
    requires old(state).wf(),
    ensures
        dereference_effect::<N>(old(state), final(state), r),
{
    let address = match pop_address(state) {
        Ok(a) => a,
        Err(e) => {
            return Err(e);
        },
    };
    let ghost mid = *state;
    match state.read::<N>(address) {
        Ok(v) => {
            state.stack.push(v);
            Ok(())
        },
        Err(e) => Err(e),
    }
}

/// What `memory_write` does to a machine, and what it answers.
pub open spec fn memory_write_effect<N: ValueVariant>(old: &ForthState, new: &ForthState, r: ForthResult) -> bool {
    &&& (new.wf())
    &&& (old.stack@.len() < 1 + N::spec_size() ==> r == Err::<(), Error>(Error::StackUnderflow)
                && new.unchanged_except(old, set![Field::Stack]))
    &&& (old.stack@.len() >= 1 + N::spec_size() && N::spec_from_stack(old.stack@.subrange(
                old.stack@.len() - 1 - N::spec_size(),
                old.stack@.len() - 1,
            )) is Ok ==> exists|mid: ForthState, v: N|
                {
                    &&& mid.unchanged_except(old, set![Field::Stack])
                    &&& mid.stack@ == old.stack@.take(old.stack@.len() - 1 - N::spec_size())
                    &&& N::spec_from_stack(old.stack@.subrange(
                        old.stack@.len() - 1 - N::spec_size(),
                        old.stack@.len() - 1,
                    )) == Ok::<N, Error>(v)
                    &&& #[trigger] ForthState::spec_write_effect(&mid, new, address_of(old.stack@.last()), v, r)
                })
}

/// Pops an address and a value of type `N` below it, and writes the value there (`!`, `C!`,
/// `2!`).
pub fn memory_write<N: ValueVariant>(state: &mut ForthState) -> (r: ForthResult)
    requires old(state).wf(),
    ensures
        memory_write_effect::<N>(old(state), final(state), r),
{
    let address = match pop_address(state) {
        Ok(a) => a,
        Err(e) => {
            return Err(e);
        },
    };
    let ghost s1 = state.stack@;
    proof {
        let s = old(state).stack@;
        if s.len() >= 1 + N::spec_size() {
            assert(s1.skip(s1.len() - N::spec_size()) =~= s.subrange(s.len() - 1 - N::spec_size(), s.len() - 1));
        }
    }
    let value = match state.stack.pop::<N>() {
        Ok(v) => v,
        Err(e) => {
            return Err(e);
        },
    };
    proof {
        let s = old(state).stack@;
        assert(s1.skip(s1.len() - N::spec_size()) =~= s.subrange(s.len() - 1 - N::spec_size(), s.len() - 1));
        assert(s1.take(s1.len() - N::spec_size()) =~= s.take(s.len() - 1 - N::spec_size()));
    }
    let ghost mid = *state;
    let r = state.write(address, value);
    proof {
        let s = old(state).stack@;
        assert(mid.unchanged_except(old(state), set![Field::Stack]));
        assert(mid.stack@ == s.take(s.len() - 1 - N::spec_size()));
        assert(N::spec_from_stack(s.subrange(s.len() - 1 - N::spec_size(), s.len() - 1)) == Ok::<N, Error>(value));
        assert(ForthState::spec_write_effect(&mid, state, address_of(s.last()), value, r));
        assert(exists|m: ForthState, v: N|
            {
                &&& m.unchanged_except(old(state), set![Field::Stack])
                &&& m.stack@ == s.take(s.len() - 1 - N::spec_size())
                &&& N::spec_from_stack(s.subrange(s.len() - 1 - N::spec_size(), s.len() - 1)) == Ok::<N, Error>(v)
                &&& #[trigger] ForthState::spec_write_effect(&m, state, address_of(s.last()), v, r)
            });
    }
    r
}

/// What `pop_write` does to a machine, and what it answers.
pub open spec fn pop_write_effect(old: &ForthState, new: &ForthState, r: ForthResult) -> bool {
    &&& (new.wf())
    &&& (new.unchanged_except(old, set![Field::Stack, Field::DataSpace]))
    &&& (old.stack@.len() == 0 ==> r == Err::<(), Error>(Error::StackUnderflow) && new.data_space
                == old.data_space)
    &&& (old.stack@.len() > 0 ==> new.stack@ == old.stack@.drop_last() && (old.data_room(2) ==> r is Ok
                && new.data_space.view() == old.data_space.view().push(old.stack@.last()))
                && (!old.data_room(2) ==> r == Err::<(), Error>(Error::InsufficientMemory)))
}

/// Pops a value and appends it to the data space (`,`).
pub fn pop_write(state: &mut ForthState) -> (r: ForthResult)
    requires old(state).wf(),
    ensures
        pop_write_effect(old(state), final(state), r),
{
    let ghost s = state.stack@;
    let v = match state.stack.pop::<Value>() {
        Ok(v) => v,
        Err(e) => {
            return Err(e);
        },
    };
    proof {
        assert(s.skip(s.len() - 1)[0] == s.last());
        assert(s.take(s.len() - 1) =~= s.drop_last());
    }
    let r = state.push_data(v);
    proof {
        assert(seq![v] =~= Seq::<Value>::empty().push(v));
        assert(old(state).data_space.view() + seq![v] =~= old(state).data_space.view().push(v));
    }
    r
}

/// The words of this module: each name, whether it is immediate, and its operation.
pub open spec fn operation_table() -> Seq<(&'static str, bool, Operation)> {
    seq![
        (",", false, Operation::PopWrite),
        ("!", false, Operation::MemoryWrite(MemoryWidth::Cell)),
        ("@", false, Operation::Dereference(MemoryWidth::Cell)),
        ("C!", false, Operation::MemoryWrite(MemoryWidth::Byte)),
        ("C@", false, Operation::Dereference(MemoryWidth::Byte)),
        ("2!", false, Operation::MemoryWrite(MemoryWidth::Double)),
        ("2@", false, Operation::Dereference(MemoryWidth::Double)),
    ]
}

/// The memory words with their names.
pub fn get_operations() -> (r: Vec<(&'static str, bool, Operation)>)
    ensures r@ == operation_table(),
{
    let mut v: Vec<(&'static str, bool, Operation)> = Vec::new();
    v.push((",", false, Operation::PopWrite));
    v.push(("!", false, Operation::MemoryWrite(MemoryWidth::Cell)));
    v.push(("@", false, Operation::Dereference(MemoryWidth::Cell)));
    v.push(("C!", false, Operation::MemoryWrite(MemoryWidth::Byte)));
    v.push(("C@", false, Operation::Dereference(MemoryWidth::Byte)));
    v.push(("2!", false, Operation::MemoryWrite(MemoryWidth::Double)));
    v.push(("2@", false, Operation::Dereference(MemoryWidth::Double)));
    assert(v@ =~= operation_table());
    v
}

} // verus!
