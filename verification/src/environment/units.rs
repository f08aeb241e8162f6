use vstd::prelude::*;
use vstd::std_specs::ops::AddSpecImpl;
use vstd::std_specs::ops::SubSpecImpl;
use crate::environment::memory::{Address, Memory, MemorySegment};
use crate::environment::stack::Stack;
use crate::environment::value::{Value, ValueVariant};
use crate::evaluate::{Error, ForthResult};

verus! {

/// Number of bytes in one cell (the size of one `Value`).
pub const CELL_SIZE: u64 = 8;
/// Number of bytes in one page.
pub const PAGE_SIZE: u64 = 0x1000;

/// Ceiling division of `n` by the positive `d`.
pub open spec fn div_ceil(n: int, d: int) -> int {
    (n + d - 1) / d
}

/// An amount of memory counted in bytes.
#[derive(Clone, Copy, PartialEq, Eq, Structural, Hash, Debug)]
pub struct Bytes(pub u64);

/// An amount of memory counted in cells of `CELL_SIZE` bytes.
#[derive(Clone, Copy, PartialEq, Eq, Structural, Hash, Debug)]
pub struct Cells(pub u64);

/// An amount of memory counted in pages of `PAGE_SIZE` bytes.
#[derive(Clone, Copy, PartialEq, Eq, Structural, Hash, Debug)]
pub struct Pages(pub u64);

impl Bytes {
    pub fn bytes(num: u64) -> (r: Self)
        ensures r.0 == num,
    {
        Bytes(num)
    }

    pub fn zero() -> (r: Self)
        ensures r.0 == 0,
    {
        Bytes(0)
    }

    pub fn one() -> (r: Self)
        ensures r.0 == 1,
    {
        Bytes(1)
    }

    pub fn get_bytes(self) -> (r: u64)
        ensures r == self.0,
    {
        self.0
    }

    /// The number of cells needed to hold this many bytes (rounded up).
    pub fn to_cells(self) -> (r: Cells)
        requires self.0 + CELL_SIZE - 1 <= u64::MAX,
        ensures r.0 == div_ceil(self.0 as int, CELL_SIZE as int),
    {
        Cells((self.0 + (CELL_SIZE - 1)) / CELL_SIZE)
    }

    /// The number of pages needed to hold this many bytes (rounded up).
    pub fn to_pages(self) -> (r: Pages)
        requires self.0 + PAGE_SIZE - 1 <= u64::MAX,
        ensures r.0 == div_ceil(self.0 as int, PAGE_SIZE as int),
    {
        Pages((self.0 + (PAGE_SIZE - 1)) / PAGE_SIZE)
    }

    /// The number of whole cells contained in this many bytes (rounded down).
    pub fn containing_cells(self) -> (r: Cells)
        ensures r.0 == self.0 / CELL_SIZE,
    {
        Cells(self.0 / CELL_SIZE)
    }

    pub fn plus(self, rhs: Bytes) -> (r: Bytes)
        requires self.0 + rhs.0 <= u64::MAX,
        ensures r.0 == self.0 + rhs.0,
    {
        Bytes(self.0 + rhs.0)
    }

    pub fn minus(self, rhs: Bytes) -> (r: Bytes)
        requires self.0 >= rhs.0,
        ensures r.0 == self.0 - rhs.0,
    {
        Bytes(self.0 - rhs.0)
    }

    pub fn times(self, rhs: u64) -> (r: Bytes)
        requires self.0 * rhs <= u64::MAX,
        ensures r.0 == self.0 * rhs,
    {
        Bytes(self.0 * rhs)
    }

    pub fn less_than(self, rhs: Bytes) -> (r: bool)
        ensures r == (self.0 < rhs.0),
    {
        self.0 < rhs.0
    }

    /// Text form: the amount followed by the unit name.
    pub fn to_string(&self) -> (r: String)
        ensures r@ == crate::io::format::decimal_string(self.0 as int) + seq![' '] + "Bytes"@,
    {
        crate::io::format::unit_string(self.0, "Bytes")
    }
}

impl Cells {
    pub fn cells(num: u64) -> (r: Self)
        ensures r.0 == num,
    {
        Cells(num)
    }

    pub fn zero() -> (r: Self)
        ensures r.0 == 0,
    {
        Cells(0)
    }

    pub fn one() -> (r: Self)
        ensures r.0 == 1,
    {
        Cells(1)
    }

    pub fn get_cells(self) -> (r: u64)
        ensures r == self.0,
    {
        self.0
    }

    /// The number of bytes in this many cells.
    pub fn to_bytes(self) -> (r: Bytes)
        requires self.0 * CELL_SIZE <= u64::MAX,
        ensures r.0 == self.0 * CELL_SIZE,
    {
        Bytes(self.0 * CELL_SIZE)
    }

    /// The number of pages needed to hold this many cells (rounded up).
    pub fn to_pages(self) -> (r: Pages)
        requires self.0 * CELL_SIZE + PAGE_SIZE - 1 <= u64::MAX,
        ensures r.0 == div_ceil(self.0 * CELL_SIZE, PAGE_SIZE as int),
    {
        Pages((self.0 * CELL_SIZE + (PAGE_SIZE - 1)) / PAGE_SIZE)
    }

    pub fn plus(self, rhs: Cells) -> (r: Cells)
        requires self.0 + rhs.0 <= u64::MAX,
        ensures r.0 == self.0 + rhs.0,
    {
        Cells(self.0 + rhs.0)
    }

    pub fn minus(self, rhs: Cells) -> (r: Cells)
        requires self.0 >= rhs.0,
        ensures r.0 == self.0 - rhs.0,
    {
        Cells(self.0 - rhs.0)
    }

    pub fn times(self, rhs: u64) -> (r: Cells)
        requires self.0 * rhs <= u64::MAX,
        ensures r.0 == self.0 * rhs,
    {
        Cells(self.0 * rhs)
    }

    pub fn div_by(self, rhs: u64) -> (r: Cells)
        requires rhs > 0,
        ensures r.0 == self.0 / rhs,
    {
        Cells(self.0 / rhs)
    }

    pub fn less_than(self, rhs: Cells) -> (r: bool)
        ensures r == (self.0 < rhs.0),
    {
        self.0 < rhs.0
    }

    /// Text form: the amount followed by the unit name.
    pub fn to_string(&self) -> (r: String)
        ensures r@ == crate::io::format::decimal_string(self.0 as int) + seq![' '] + "Cells"@,
    {
        crate::io::format::unit_string(self.0, "Cells")
    }
}

impl Pages {
    pub fn pages(num: u64) -> (r: Self)
        ensures r.0 == num,
    {
        Pages(num)
    }

    pub fn zero() -> (r: Self)
        ensures r.0 == 0,
    {
        Pages(0)
    }

    pub fn one() -> (r: Self)
        ensures r.0 == 1,
    {
        Pages(1)
    }

    pub fn get_pages(self) -> (r: u64)
        ensures r == self.0,
    {
        self.0
    }

    /// The number of bytes in this many pages.
    pub fn to_bytes(self) -> (r: Bytes)
        requires self.0 * PAGE_SIZE <= u64::MAX,
        ensures r.0 == self.0 * PAGE_SIZE,
    {
        Bytes(self.0 * PAGE_SIZE)
    }

    /// The number of cells in this many pages.
    pub fn to_cells(self) -> (r: Cells)
        requires self.0 * PAGE_SIZE <= u64::MAX,
        ensures r.0 == self.0 * (PAGE_SIZE / CELL_SIZE),
    {
        Cells(self.0 * (PAGE_SIZE / CELL_SIZE))
    }

    pub fn times(self, rhs: u64) -> (r: Pages)
        requires self.0 * rhs <= u64::MAX,
        ensures r.0 == self.0 * rhs,
    {
        Pages(self.0 * rhs)
    }

    /// How many times `rhs` fits into this amount.
    pub fn ratio(self, rhs: Pages) -> (r: u64)
        requires rhs.0 > 0,
        ensures r == self.0 / rhs.0,
    {
        self.0 / rhs.0
    }

    /// Text form: the amount followed by the unit name.
    pub fn to_string(&self) -> (r: String)
        ensures r@ == crate::io::format::decimal_string(self.0 as int) + seq![' '] + "Pages"@,
    {
        crate::io::format::unit_string(self.0, "Pages")
    }
}

impl core::ops::Add for Bytes {
    type Output = Bytes;

    fn add(self, rhs: Bytes) -> (r: Bytes) {
        Bytes(self.0 + rhs.0)
    }
}

impl AddSpecImpl for Bytes {
    open spec fn obeys_add_spec() -> bool {
        true
    }

    open spec fn add_req(self, rhs: Bytes) -> bool {
        self.0 + rhs.0 <= u64::MAX
    }

    open spec fn add_spec(self, rhs: Bytes) -> Bytes {
        Bytes((self.0 + rhs.0) as u64)
    }
}

impl core::ops::Sub for Bytes {
    type Output = Bytes;

    fn sub(self, rhs: Bytes) -> (r: Bytes) {
        Bytes(self.0 - rhs.0)
    }
}

impl SubSpecImpl for Bytes {
    open spec fn obeys_sub_spec() -> bool {
        true
    }

    open spec fn sub_req(self, rhs: Bytes) -> bool {
        self.0 >= rhs.0
    }

    open spec fn sub_spec(self, rhs: Bytes) -> Bytes {
        Bytes((self.0 - rhs.0) as u64)
    }
}

impl core::ops::Add for Cells {
    type Output = Cells;

    fn add(self, rhs: Cells) -> (r: Cells) {
        Cells(self.0 + rhs.0)
    }
}

impl AddSpecImpl for Cells {
    open spec fn obeys_add_spec() -> bool {
        true
    }

    open spec fn add_req(self, rhs: Cells) -> bool {
        self.0 + rhs.0 <= u64::MAX
    }

    open spec fn add_spec(self, rhs: Cells) -> Cells {
        Cells((self.0 + rhs.0) as u64)
    }
}

impl core::ops::Sub for Cells {
    type Output = Cells;

    fn sub(self, rhs: Cells) -> (r: Cells) {
        Cells(self.0 - rhs.0)
    }
}

impl SubSpecImpl for Cells {
    open spec fn obeys_sub_spec() -> bool {
        true
    }

    open spec fn sub_req(self, rhs: Cells) -> bool {
        self.0 >= rhs.0
    }

    open spec fn sub_spec(self, rhs: Cells) -> Cells {
        Cells((self.0 - rhs.0) as u64)
    }
}

impl core::ops::Add for Pages {
    type Output = Pages;

    fn add(self, rhs: Pages) -> (r: Pages) {
        Pages(self.0 + rhs.0)
    }
}

impl AddSpecImpl for Pages {
    open spec fn obeys_add_spec() -> bool {
        true
    }

    open spec fn add_req(self, rhs: Pages) -> bool {
        self.0 + rhs.0 <= u64::MAX
    }

    open spec fn add_spec(self, rhs: Pages) -> Pages {
        Pages((self.0 + rhs.0) as u64)
    }
}

impl core::ops::Sub for Pages {
    type Output = Pages;

    fn sub(self, rhs: Pages) -> (r: Pages) {
        Pages(self.0 - rhs.0)
    }
}

impl SubSpecImpl for Pages {
    open spec fn obeys_sub_spec() -> bool {
        true
    }

    open spec fn sub_req(self, rhs: Pages) -> bool {
        self.0 >= rhs.0
    }

    open spec fn sub_spec(self, rhs: Pages) -> Pages {
        Pages((self.0 - rhs.0) as u64)
    }
}

/// Converting a number of cells to bytes and back gives the same number of cells.
pub proof fn lemma_cells_bytes_roundtrip(c: Cells)
    requires c.0 * CELL_SIZE + CELL_SIZE - 1 <= u64::MAX,
    ensures div_ceil(c.0 * CELL_SIZE, CELL_SIZE as int) == c.0,
{
    assert((c.0 * 8 + 7) / 8 == c.0) by (nonlinear_arith)
        requires c.0 >= 0;
}

/// Converting bytes to cells rounds up: the cells hold at least the bytes,
/// and less than one cell more.
pub proof fn lemma_bytes_cells_round_up(b: Bytes)
    ensures
        div_ceil(b.0 as int, CELL_SIZE as int) * CELL_SIZE >= b.0,
        div_ceil(b.0 as int, CELL_SIZE as int) * CELL_SIZE < b.0 + CELL_SIZE,
{
    let n = b.0 as int;
    assert((n + 7) / 8 * 8 >= n && (n + 7) / 8 * 8 < n + 8) by (nonlinear_arith)
        requires n >= 0;
}


impl ValueVariant for Bytes {
    open spec fn spec_size() -> nat {
        1
    }

    open spec fn spec_stack_cells(self) -> Seq<Value> {
        seq![Value::Number(self.0 as i64)]
    }

    open spec fn spec_from_stack(cells: Seq<Value>) -> Result<Self, Error> {
        Ok(Bytes(cells[0].spec_to_number() as u64))
    }

    open spec fn spec_memory_cells(self) -> Seq<Value> {
        seq![Value::Number(self.0 as i64)]
    }

    open spec fn spec_from_memory(first: Result<Value, Error>, second: Result<Value, Error>, address: Address) -> Result<Self, Error> {
        match first {
            Ok(v) => Ok(Bytes(v.spec_to_number() as u64)),
            Err(e) => Err(e),
        }
    }

    open spec fn spec_write_first(self, old_first: Value, address: Address) -> Value {
        Value::Number(self.0 as i64)
    }

    open spec fn spec_write_second(self) -> Value {
        Value::Number(self.0 as i64)
    }

    fn size() -> (r: u64) {
        1
    }

    fn push_to_stack(self, stack: &mut Stack) {
        (self.0).push_to_stack(stack)
    }

    fn pop_from_stack(stack: &mut Stack) -> (r: Result<Self, Error>) {
        match u64::pop_from_stack(stack) {
            Ok(n) => Ok(Bytes(n)),
            Err(e) => Err(e),
        }
    }

    fn write_to_memory<M: MemorySegment>(self, memory: &mut M, address: Address) -> (r: ForthResult) {
        (self.0).write_to_memory(memory, address)
    }

    fn read_from_memory<M: MemorySegment>(memory: &M, address: Address) -> (r: Result<Self, Error>) {
        match u64::read_from_memory(memory, address) {
            Ok(n) => Ok(Bytes(n)),
            Err(e) => Err(e),
        }
    }

    fn push_to_memory(self, memory: &mut Memory) {
        (self.0).push_to_memory(memory)
    }
}

impl ValueVariant for Cells {
    open spec fn spec_size() -> nat {
        1
    }

    open spec fn spec_stack_cells(self) -> Seq<Value> {
        seq![Value::Number(self.0 as i64)]
    }

    open spec fn spec_from_stack(cells: Seq<Value>) -> Result<Self, Error> {
        Ok(Cells(cells[0].spec_to_number() as u64))
    }

    open spec fn spec_memory_cells(self) -> Seq<Value> {
        seq![Value::Number(self.0 as i64)]
    }

    open spec fn spec_from_memory(first: Result<Value, Error>, second: Result<Value, Error>, address: Address) -> Result<Self, Error> {
        match first {
            Ok(v) => Ok(Cells(v.spec_to_number() as u64)),
            Err(e) => Err(e),
        }
    }

    open spec fn spec_write_first(self, old_first: Value, address: Address) -> Value {
        Value::Number(self.0 as i64)
    }

    open spec fn spec_write_second(self) -> Value {
        Value::Number(self.0 as i64)
    }

    fn size() -> (r: u64) {
        1
    }

    fn push_to_stack(self, stack: &mut Stack) {
        (self.0).push_to_stack(stack)
    }

    fn pop_from_stack(stack: &mut Stack) -> (r: Result<Self, Error>) {
        match u64::pop_from_stack(stack) {
            Ok(n) => Ok(Cells(n)),
            Err(e) => Err(e),
        }
    }

    fn write_to_memory<M: MemorySegment>(self, memory: &mut M, address: Address) -> (r: ForthResult) {
        (self.0).write_to_memory(memory, address)
    }

    fn read_from_memory<M: MemorySegment>(memory: &M, address: Address) -> (r: Result<Self, Error>) {
        match u64::read_from_memory(memory, address) {
            Ok(n) => Ok(Cells(n)),
            Err(e) => Err(e),
        }
    }

    fn push_to_memory(self, memory: &mut Memory) {
        (self.0).push_to_memory(memory)
    }
}

impl ValueVariant for Pages {
    open spec fn spec_size() -> nat {
        1
    }

    open spec fn spec_stack_cells(self) -> Seq<Value> {
        seq![Value::Number(self.0 as i64)]
    }

    open spec fn spec_from_stack(cells: Seq<Value>) -> Result<Self, Error> {
        Ok(Pages(cells[0].spec_to_number() as u64))
    }

    open spec fn spec_memory_cells(self) -> Seq<Value> {
        seq![Value::Number(self.0 as i64)]
    }

    open spec fn spec_from_memory(first: Result<Value, Error>, second: Result<Value, Error>, address: Address) -> Result<Self, Error> {
        match first {
            Ok(v) => Ok(Pages(v.spec_to_number() as u64)),
            Err(e) => Err(e),
        }
    }

    open spec fn spec_write_first(self, old_first: Value, address: Address) -> Value {
        Value::Number(self.0 as i64)
    }

    open spec fn spec_write_second(self) -> Value {
        Value::Number(self.0 as i64)
    }

    fn size() -> (r: u64) {
        1
    }

    fn push_to_stack(self, stack: &mut Stack) {
        (self.0).push_to_stack(stack)
    }

    fn pop_from_stack(stack: &mut Stack) -> (r: Result<Self, Error>) {
        match u64::pop_from_stack(stack) {
            Ok(n) => Ok(Pages(n)),
            Err(e) => Err(e),
        }
    }

    fn write_to_memory<M: MemorySegment>(self, memory: &mut M, address: Address) -> (r: ForthResult) {
        (self.0).write_to_memory(memory, address)
    }

    fn read_from_memory<M: MemorySegment>(memory: &M, address: Address) -> (r: Result<Self, Error>) {
        match u64::read_from_memory(memory, address) {
            Ok(n) => Ok(Pages(n)),
            Err(e) => Err(e),
        }
    }

    fn push_to_memory(self, memory: &mut Memory) {
        (self.0).push_to_memory(memory)
    }
}

} // verus!
