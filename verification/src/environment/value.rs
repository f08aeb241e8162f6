use vstd::prelude::*;
use crate::environment::memory::{self, Address, Memory, MemorySegment, read_result, second_read};
use crate::environment::stack::Stack;
use crate::evaluate::{Error, ForthResult};
use crate::evaluate::definition::{ExecutionToken, token_description};
use crate::io::format::{decimal, decimal_string};

verus! {

/// The content of one cell: a number or an execution token.
#[derive(Copy, Clone, PartialEq, Eq, Structural, Debug)]
pub enum Value {
    Number(i64),
    ExecutionToken(ExecutionToken),
}

impl Value {
    pub open spec fn spec_to_number(self) -> i64 {
        match self {
            Value::Number(i) => i,
            Value::ExecutionToken(xt) => xt.spec_to_offset() as i64,
        }
    }

    /// The number a cell holds; an execution token is read as its offset.
    pub fn to_number(self) -> (r: i64)
        ensures r == self.spec_to_number(),
    {
        match self {
            Value::Number(i) => i,
            Value::ExecutionToken(execution_token) => execution_token.to_offset() as i64,
        }
    }
}

/// The text of a cell's content: a number in decimal, or the token's description.
pub open spec fn value_text(v: Value) -> Seq<char> {
    match v {
        Value::Number(n) => decimal_string(n as int),
        Value::ExecutionToken(xt) => token_description(xt),
    }
}

impl Value {
    /// The text of the cell's content.
    pub fn to_string(&self) -> (r: String)
        ensures r@ == value_text(*self),
    {
        match *self {
            Value::Number(n) => decimal(n as i128),
            Value::ExecutionToken(xt) => xt.to_string(),
        }
    }
}

/// Something that can be pushed onto and popped off a stack, and written to
/// and read from memory, as one or two cells.
pub trait ValueVariant: Sized + Copy {
    /// The number of cells a value takes.
    spec fn spec_size() -> nat;

    /// The cells a value leaves on a stack, deepest first.
    spec fn spec_stack_cells(self) -> Seq<Value>;

    /// The value made of the top `spec_size()` cells of a stack, deepest first.
    spec fn spec_from_stack(cells: Seq<Value>) -> Result<Self, Error>;

    /// The cells appended to a memory when a value is pushed onto it.
    spec fn spec_memory_cells(self) -> Seq<Value>;

    /// The value read at `address`, given the results of reading its cell
    /// and the following cell.
    spec fn spec_from_memory(first: Result<Value, Error>, second: Result<Value, Error>, address: Address) -> Result<Self, Error>;

    /// The new content of the cell at `address` after writing, given its old content.
    spec fn spec_write_first(self, old_first: Value, address: Address) -> Value;

    /// The new content of the following cell after writing a two-cell value.
    spec fn spec_write_second(self) -> Value;

    fn size() -> (r: u64)
        ensures
            r == Self::spec_size(),
            1 <= r <= 2,
    ;

    fn push_to_stack(self, stack: &mut Stack)
        ensures
            final(stack)@ == old(stack)@ + self.spec_stack_cells(),
            self.spec_stack_cells().len() == Self::spec_size(),
            final(stack).spec_stack_base() == old(stack).spec_stack_base(),
            final(stack).spec_frame_offset() == old(stack).spec_frame_offset(),
    ;

    fn pop_from_stack(stack: &mut Stack) -> (r: Result<Self, Error>)
        ensures
            final(stack).spec_stack_base() == old(stack).spec_stack_base(),
            final(stack).spec_frame_offset() == old(stack).spec_frame_offset(),
            old(stack)@.len() >= Self::spec_size() ==> final(stack)@ == old(stack)@.take(
                old(stack)@.len() - Self::spec_size(),
            ) && r == Self::spec_from_stack(old(stack)@.skip(old(stack)@.len() - Self::spec_size())),
            old(stack)@.len() < Self::spec_size() ==> final(stack)@ == Seq::<Value>::empty() && r
                == Err::<Self, Error>(Error::StackUnderflow),
    ;

    fn write_to_memory<M: MemorySegment>(self, memory: &mut M, address: Address) -> (r: ForthResult)
        requires old(memory).wf(),
        ensures
            final(memory).wf(),
            final(memory).spec_base() == old(memory).spec_base(),
            final(memory).spec_end() == old(memory).spec_end(),
            forall|a: Address| #[trigger]
                final(memory).spec_contains(a) == old(memory).spec_contains(a),
            forall|a: Address| #[trigger]
                final(memory).spec_cell_index(a) == old(memory).spec_cell_index(a),
            memory::write_fits(old(memory), address, Self::spec_size()) ==> r is Ok,
            !memory::write_fits(old(memory), address, Self::spec_size()) ==> r == Err::<(), Error>(
                Error::InvalidAddress,
            ),
            r is Err ==> *final(memory) == *old(memory),
            final(memory).spec_extent() == old(memory).spec_extent(),
            final(memory).spec_same_shape(old(memory)),
            forall|a: Address|
                old(memory).spec_contains(a) ==> #[trigger] final(memory).spec_read(a)
                    == memory::read_after_write(
                    old(memory),
                    address,
                    self.spec_write_first(old(memory).spec_read(address), address),
                    self.spec_write_second(),
                    Self::spec_size(),
                    r is Ok,
                    a,
                ),
    ;

    fn read_from_memory<M: MemorySegment>(memory: &M, address: Address) -> (r: Result<Self, Error>)
        requires memory.wf(),
        ensures
            r == Self::spec_from_memory(read_result(memory, address), second_read(memory, address), address),
    ;

    fn push_to_memory(self, memory: &mut Memory)
        requires
            old(memory).inv(),
            old(memory).spec_base_address().raw() + (old(memory).spec_length() + 2) * 8 <= u64::MAX,
        ensures
            final(memory).inv(),
            final(memory).spec_base_address() == old(memory).spec_base_address(),
            final(memory).spec_length() == old(memory).spec_length() + Self::spec_size(),
            final(memory).view() == old(memory).view() + self.spec_memory_cells(),
    ;
}

impl ValueVariant for Value {
    open spec fn spec_size() -> nat {
        1
    }

    open spec fn spec_stack_cells(self) -> Seq<Value> {
        seq![self]
    }

    open spec fn spec_from_stack(cells: Seq<Value>) -> Result<Self, Error> {
        Ok(cells[0])
    }

    open spec fn spec_memory_cells(self) -> Seq<Value> {
        seq![self]
    }

    open spec fn spec_from_memory(first: Result<Value, Error>, second: Result<Value, Error>, address: Address) -> Result<Self, Error> {
        first
    }

    open spec fn spec_write_first(self, old_first: Value, address: Address) -> Value {
        self
    }

    open spec fn spec_write_second(self) -> Value {
        self
    }

    fn size() -> (r: u64) {
        1
    }

    fn push_to_stack(self, stack: &mut Stack) {
        stack.push_value(self);
        assert(self.spec_stack_cells() == seq![self]);
        assert(seq![self].len() == 1);
        assert(Self::spec_size() == 1);
        assert(stack@ =~= old(stack)@ + seq![self]);
    }

    fn pop_from_stack(stack: &mut Stack) -> (r: Result<Self, Error>) {
        let r = stack.pop_value();
        proof {
            if old(stack)@.len() >= 1 {
                assert(old(stack)@.skip(old(stack)@.len() - 1) =~= seq![old(stack)@.last()]);
            }
        }
        r
    }

    fn write_to_memory<M: MemorySegment>(self, memory: &mut M, address: Address) -> (r: ForthResult) {
        memory.write_value(address, self)
    }

    fn read_from_memory<M: MemorySegment>(memory: &M, address: Address) -> (r: Result<Self, Error>) {
        memory.read_value(address)
    }

    fn push_to_memory(self, memory: &mut Memory) {
        memory.push_value(self);
        assert(old(memory).view().push(self) =~= old(memory).view() + seq![self]);
    }
}

/// Two cells handled together; `.0` is the top of the stack and the first cell in memory.
#[derive(Copy, Clone, PartialEq, Eq, Structural, Debug)]
pub struct DoubleValue(pub Value, pub Value);

/// Combines two cell reads into a pair.
pub open spec fn pair_result(first: Result<Value, Error>, second: Result<Value, Error>) -> Result<DoubleValue, Error> {
    match first {
        Ok(a) => match second {
            Ok(b) => Ok(DoubleValue(a, b)),
            Err(e) => Err(e),
        },
        Err(e) => Err(e),
    }
}

impl ValueVariant for DoubleValue {
    open spec fn spec_size() -> nat {
        2
    }

    open spec fn spec_stack_cells(self) -> Seq<Value> {
        seq![self.1, self.0]
    }

    open spec fn spec_from_stack(cells: Seq<Value>) -> Result<Self, Error> {
        Ok(DoubleValue(cells[1], cells[0]))
    }

    open spec fn spec_memory_cells(self) -> Seq<Value> {
        seq![self.0, self.1]
    }

    open spec fn spec_from_memory(first: Result<Value, Error>, second: Result<Value, Error>, address: Address) -> Result<Self, Error> {
        pair_result(first, second)
    }

    open spec fn spec_write_first(self, old_first: Value, address: Address) -> Value {
        self.0
    }

    open spec fn spec_write_second(self) -> Value {
        self.1
    }

    fn size() -> (r: u64) {
        2
    }

    fn push_to_stack(self, stack: &mut Stack) {
        stack.push_value(self.1);
        stack.push_value(self.0);
        assert(stack@ =~= old(stack)@ + seq![self.1, self.0]);
    }

    fn pop_from_stack(stack: &mut Stack) -> (r: Result<Self, Error>) {
        let a = stack.pop_value();
        match a {
            Ok(a) => {
                let b = stack.pop_value();
                match b {
                    Ok(b) => {
                        assert(old(stack)@.skip(old(stack)@.len() - 2) =~= seq![b, a]);
                        assert(stack@ =~= old(stack)@.take(old(stack)@.len() - 2));
                        Ok(DoubleValue(a, b))
                    },
                    Err(e) => Err(e),
                }
            },
            Err(e) => Err(e),
        }
    }

    fn write_to_memory<M: MemorySegment>(self, memory: &mut M, address: Address) -> (r: ForthResult) {
        memory::write_two(memory, address, self.0, self.1)
    }

    fn read_from_memory<M: MemorySegment>(memory: &M, address: Address) -> (r: Result<Self, Error>) {
        let (a, b) = memory::read_two(memory, address);
        match a {
            Ok(a) => match b {
                Ok(b) => Ok(DoubleValue(a, b)),
                Err(e) => Err(e),
            },
            Err(e) => Err(e),
        }
    }

    fn push_to_memory(self, memory: &mut Memory) {
        memory.push_value(self.0);
        memory.push_value(self.1);
        assert(memory.view() =~= old(memory).view() + seq![self.0, self.1]);
    }
}

/// A value made of whole cells that a stack gives back exactly as it was pushed.
pub trait CellValue: ValueVariant {
    proof fn lemma_stack_cells(cells: Seq<Value>)
        requires cells.len() == Self::spec_size(),
        ensures Self::spec_from_stack(cells) matches Ok(v) && v.spec_stack_cells() == cells,
    ;

    /// A value pushed is popped back unchanged.
    proof fn lemma_value_cells(v: Self)
        ensures
            v.spec_stack_cells().len() == Self::spec_size(),
            Self::spec_from_stack(v.spec_stack_cells()) == Ok::<Self, Error>(v),
    ;
}

impl CellValue for Value {
    proof fn lemma_stack_cells(cells: Seq<Value>) {
        assert(seq![cells[0]] =~= cells);
    }

    proof fn lemma_value_cells(v: Self) {
    }
}

impl CellValue for DoubleValue {
    proof fn lemma_stack_cells(cells: Seq<Value>) {
        assert(seq![cells[0], cells[1]] =~= cells);
    }

    proof fn lemma_value_cells(v: Self) {
    }
}

} // verus!
