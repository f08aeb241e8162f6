use vstd::prelude::*;
use crate::environment::memory::{Address, MemorySegment};
use crate::environment::units::{Bytes, Cells, CELL_SIZE};
use crate::environment::value::{Value, ValueVariant};
use crate::evaluate::{Error, ForthResult};

verus! {

/// A stack of cells mapped at `base`; `frame_offset` marks where the current
/// frame starts (used on the return stack only).
pub struct Stack {
    base: Address,
    stack: Vec<Value>,
    frame_offset: usize,
}

impl View for Stack {
    type V = Seq<Value>;

    closed spec fn view(&self) -> Seq<Value> {
        self.stack@
    }
}

impl Stack {
    pub closed spec fn spec_stack_base(&self) -> Address {
        self.base
    }

    pub closed spec fn spec_frame_offset(&self) -> nat {
        self.frame_offset as nat
    }

    pub fn new(base: u64) -> (r: Self)
        ensures
            r@ == Seq::<Value>::empty(),
            r.spec_stack_base().raw() == base,
            r.spec_frame_offset() == 0,
    {
        Self { base: Address::from_raw(Bytes::bytes(base)), stack: Vec::new(), frame_offset: 0 }
    }

    pub fn push_value(&mut self, value: Value)
        ensures
            final(self)@ == old(self)@.push(value),
            final(self).spec_stack_base() == old(self).spec_stack_base(),
            final(self).spec_frame_offset() == old(self).spec_frame_offset(),
    {
        self.stack.push(value);
    }

    pub fn pop_value(&mut self) -> (r: Result<Value, Error>)
        ensures
            final(self).spec_stack_base() == old(self).spec_stack_base(),
            final(self).spec_frame_offset() == old(self).spec_frame_offset(),
            old(self)@.len() > 0 ==> r == Ok::<Value, Error>(old(self)@.last()) && final(self)@ == old(self)@.drop_last(),
            old(self)@.len() == 0 ==> r == Err::<Value, Error>(Error::StackUnderflow) && final(self)@ == old(self)@,
    {
        match self.stack.pop() {
            Some(v) => Ok(v),
            None => Err(Error::StackUnderflow),
        }
    }

    pub fn push<T: ValueVariant>(&mut self, value: T)
        ensures
            final(self)@ == old(self)@ + value.spec_stack_cells(),
            final(self).spec_stack_base() == old(self).spec_stack_base(),
            final(self).spec_frame_offset() == old(self).spec_frame_offset(),
    {
        value.push_to_stack(self);
    }

    pub fn pop<T: ValueVariant>(&mut self) -> (r: Result<T, Error>)
        ensures
            final(self).spec_stack_base() == old(self).spec_stack_base(),
            final(self).spec_frame_offset() == old(self).spec_frame_offset(),
            old(self)@.len() >= T::spec_size() ==> final(self)@ == old(self)@.take(old(self)@.len() - T::spec_size())
                && r == T::spec_from_stack(old(self)@.skip(old(self)@.len() - T::spec_size())),
            old(self)@.len() < T::spec_size() ==> final(self)@ == Seq::<Value>::empty() && r
                == Err::<T, Error>(Error::StackUnderflow),
    {
        T::pop_from_stack(self)
    }

    /// The top value, left in place (re-pushed in its own encoding).
    pub fn peek<T: ValueVariant>(&mut self) -> (r: Result<T, Error>)
        ensures
            final(self).spec_stack_base() == old(self).spec_stack_base(),
            final(self).spec_frame_offset() == old(self).spec_frame_offset(),
            old(self)@.len() >= T::spec_size() ==> r == T::spec_from_stack(old(self)@.skip(old(self)@.len() - T::spec_size()))
                && (r matches Ok(v) ==> final(self)@ == old(self)@.take(old(self)@.len() - T::spec_size())
                + v.spec_stack_cells())
                && (r is Err ==> final(self)@ == old(self)@.take(old(self)@.len() - T::spec_size())),
            old(self)@.len() < T::spec_size() ==> final(self)@ == Seq::<Value>::empty() && r
                == Err::<T, Error>(Error::StackUnderflow),
    {
        match self.pop::<T>() {
            Ok(value) => {
                self.push(value);
                Ok(value)
            },
            Err(e) => Err(e),
        }
    }

    pub fn len(&self) -> (r: Cells)
        ensures r.0 == self@.len(),
    {
        Cells::cells(self.stack.len() as u64)
    }

    /// Starts a new frame: saves the current frame offset on the stack.
    pub fn push_frame(&mut self)
        ensures
            final(self)@ == old(self)@.push(Value::Number(old(self).spec_frame_offset() as i64)),
            final(self).spec_frame_offset() == old(self)@.len() + 1,
            final(self).spec_stack_base() == old(self).spec_stack_base(),
    {
        let offset = self.frame_offset as u64;
        self.push(offset);
        assert(self@ =~= old(self)@.push(Value::Number(old(self).spec_frame_offset() as i64)));
        self.frame_offset = self.stack.len();
    }

    /// Drops the current frame and restores the saved frame offset.
    pub fn pop_frame(&mut self) -> (r: ForthResult)
        ensures
            final(self).spec_stack_base() == old(self).spec_stack_base(),
            ({
                let kept = if old(self).spec_frame_offset() <= old(self)@.len() {
                    old(self)@.take(old(self).spec_frame_offset() as int)
                } else {
                    old(self)@
                };
                if old(self).spec_frame_offset() == 0 {
                    r is Ok && final(self)@ == kept && final(self).spec_frame_offset() == 0
                } else if kept.len() == 0 {
                    r == Err::<(), Error>(Error::StackUnderflow) && final(self)@ == kept
                        && final(self).spec_frame_offset() == old(self).spec_frame_offset()
                } else {
                    r is Ok && final(self)@ == kept.drop_last() && final(self).spec_frame_offset()
                        == kept.last().spec_to_number() as u64 as usize
                }
            }),
    {
        self.stack.truncate(self.frame_offset);
        let ghost kept = self.stack@;
        if self.frame_offset > 0 {
            match self.pop::<u64>() {
                Ok(offset) => {
                    proof {
                        assert(kept.skip(kept.len() - 1)[0] == kept.last());
                    }
                    self.frame_offset = offset as usize;
                },
                Err(e) => return Err(e),
            }
        }
        Ok(())
    }

    /// Reads a value stored `offset` cells into the current frame.
    pub fn read_from_frame<T: ValueVariant>(&self, offset: u64) -> (r: Result<T, Error>)
        ensures
            (self.spec_frame_offset() + offset) * CELL_SIZE + self.spec_stack_base().raw() <= u64::MAX ==> r
                == T::spec_from_memory(
                crate::environment::memory::read_result(self, frame_address(self, offset)),
                crate::environment::memory::second_read(self, frame_address(self, offset)),
                frame_address(self, offset),
            ),
            (self.spec_frame_offset() + offset) * CELL_SIZE + self.spec_stack_base().raw() > u64::MAX ==> r
                == Err::<T, Error>(Error::InvalidAddress),
    {
        let address = match (self.frame_offset as u64).checked_add(offset) {
            Some(cells) => self.base.checked_plus_cell(Cells::cells(cells)),
            None => Err(Error::InvalidAddress),
        };
        match address {
            Ok(address) => T::read_from_memory(self, address),
            Err(e) => Err(e),
        }
    }

    /// Writes a value `offset` cells into the current frame.
    pub fn write_to_frame<T: ValueVariant>(&mut self, offset: u64, value: T) -> (r: ForthResult)
        ensures
            final(self).spec_stack_base() == old(self).spec_stack_base(),
            final(self).spec_frame_offset() == old(self).spec_frame_offset(),
            final(self)@.len() == old(self)@.len(),
            (old(self).spec_frame_offset() + offset) * CELL_SIZE + old(self).spec_stack_base().raw() <= u64::MAX
                && crate::environment::memory::write_fits(old(self), frame_address(old(self), offset), T::spec_size())
                ==> r is Ok && forall|a: Address| old(self).spec_contains(a) ==> #[trigger] final(self).spec_read(a)
                == crate::environment::memory::read_after_write(
                old(self),
                frame_address(old(self), offset),
                value.spec_write_first(old(self).spec_read(frame_address(old(self), offset)), frame_address(old(self), offset)),
                value.spec_write_second(),
                T::spec_size(),
                true,
                a,
            ),
            !((old(self).spec_frame_offset() + offset) * CELL_SIZE + old(self).spec_stack_base().raw() <= u64::MAX
                && crate::environment::memory::write_fits(old(self), frame_address(old(self), offset), T::spec_size()))
                ==> r == Err::<(), Error>(Error::InvalidAddress) && final(self)@ == old(self)@,
    {
        let address = match (self.frame_offset as u64).checked_add(offset) {
            Some(cells) => self.base.checked_plus_cell(Cells::cells(cells)),
            None => Err(Error::InvalidAddress),
        };
        match address {
            Ok(address) => {
                let r = value.write_to_memory(self, address);
                r
            },
            Err(e) => Err(e),
        }
    }

    pub fn to_vec(&self) -> (r: Vec<Value>)
        ensures r@ == self@,
    {
        let mut v: Vec<Value> = Vec::new();
        let mut i: usize = 0;
        while i < self.stack.len()
            invariant
                0 <= i <= self.stack.len(),
                v@ == self.stack@.take(i as int),
            decreases self.stack.len() - i,
        {
            v.push(self.stack[i]);
            i = i + 1;
            assert(v@ =~= self.stack@.take(i as int));
        }
        assert(self.stack@.take(self.stack.len() as int) =~= self.stack@);
        v
    }

    pub fn debug_only_get_vec(&self) -> (r: &Vec<Value>)
        ensures r@ == self@,
    {
        &self.stack
    }
}

/// The address of slot `offset` of the current frame.
pub open spec fn frame_address(stack: &Stack, offset: u64) -> Address {
    Address::spec_from_raw(stack.spec_stack_base().raw() + (stack.spec_frame_offset() + offset) * CELL_SIZE)
}

/// The address of stack slot `i` refers to slot `i`.
pub proof fn lemma_stack_address(stack: &Stack, i: int)
    requires 0 <= i < stack@.len(), stack.spec_stack_base().raw() + i * 8 <= u64::MAX,
    ensures
        stack.spec_contains(Address::spec_from_raw(stack.spec_stack_base().raw() + i * 8)),
        stack.spec_cell_index(Address::spec_from_raw(stack.spec_stack_base().raw() + i * 8)) == i,
{
    assert((i * 8) / 8 == i) by (nonlinear_arith);
}

impl MemorySegment for Stack {
    open spec fn wf(&self) -> bool {
        true
    }

    open spec fn spec_base(&self) -> Address {
        self.spec_stack_base()
    }

    open spec fn spec_extent(&self) -> nat {
        self@.len()
    }

    open spec fn spec_same_shape(&self, other: &Self) -> bool {
        self.spec_stack_base() == other.spec_stack_base() && self.spec_frame_offset() == other.spec_frame_offset()
            && self@.len() == other@.len()
    }

    open spec fn spec_end(&self) -> Address {
        Address::spec_from_raw(
            if self.spec_stack_base().raw() + self@.len() * CELL_SIZE <= u64::MAX {
                self.spec_stack_base().raw() + self@.len() * CELL_SIZE
            } else {
                u64::MAX as int
            },
        )
    }

    open spec fn spec_contains(&self, address: Address) -> bool {
        self.spec_stack_base().raw() <= address.raw() && (address.raw() - self.spec_stack_base().raw())
            / (CELL_SIZE as int) < self@.len()
    }

    open spec fn spec_cell_index(&self, address: Address) -> int {
        (address.raw() - self.spec_stack_base().raw()) / CELL_SIZE as int
    }

    open spec fn spec_read(&self, address: Address) -> Value {
        self@[self.spec_cell_index(address)]
    }

    proof fn lemma_same_shape_refl(&self) {
    }

    proof fn lemma_same_shape_trans(&self, b: &Self, c: &Self) {
    }

    proof fn lemma_next_cell(&self, a: Address) {
        let o = a.raw() - self.base.raw();
        assert((o + 8) / 8 == o / 8 + 1) by (nonlinear_arith);
    }

    fn get_base(&self) -> (r: Address) {
        self.base
    }

    fn get_end(&self) -> (r: Address) {
        let len = self.stack.len() as u64;
        match len.checked_mul(CELL_SIZE) {
            Some(bytes) => match self.base.0.0.checked_add(bytes) {
                Some(end) => Address(Bytes(end)),
                None => Address(Bytes(u64::MAX)),
            },
            None => {
                assert(self.base.raw() + len * 8 > u64::MAX) by (nonlinear_arith)
                    requires len * 8 > u64::MAX, self.base.raw() >= 0;
                Address(Bytes(u64::MAX))
            },
        }
    }

    fn check_address(&self, address: Address) -> (r: ForthResult) {
        if address.0.0 >= self.base.0.0 && (address.0.0 - self.base.0.0) / CELL_SIZE < self.stack.len() as u64 {
            Ok(())
        } else {
            Err(Error::InvalidAddress)
        }
    }

    fn write_value(&mut self, address: Address, value: Value) -> (r: ForthResult) {
        if self.check_address(address).is_err() {
            return Err(Error::InvalidAddress);
        }
        let index64 = (address.0.0 - self.base.0.0) / CELL_SIZE;
        let len = self.stack.len();
        assert(index64 < len);
        let index = index64 as usize;
        assert(index as int == index64 as int);
        assert(index as int == self.spec_cell_index(address));
        self.stack.set(index, value);
        Ok(())
    }

    fn read_value(&self, address: Address) -> (r: Result<Value, Error>) {
        if self.check_address(address).is_err() {
            return Err(Error::InvalidAddress);
        }
        let index64 = (address.0.0 - self.base.0.0) / CELL_SIZE;
        let len = self.stack.len();
        assert(index64 < len);
        let index = index64 as usize;
        assert(index as int == index64 as int);
        assert(index as int == self.spec_cell_index(address));
        Ok(self.stack[index])
    }
}

} // verus!
