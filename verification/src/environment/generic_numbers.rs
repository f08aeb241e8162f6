use vstd::prelude::*;
use crate::environment::memory::{self, Address, Memory, MemorySegment, read_result, second_read};
use crate::environment::stack::Stack;
use crate::environment::value::{Value, ValueVariant};
use crate::evaluate::{Error, ForthResult};

verus! {


/// A single-cell signed number.
pub type Number = i64;
/// A single-cell unsigned number.
pub type UnsignedNumber = u64;
/// A two-cell signed number.
pub type DoubleNumber = i128;
/// A two-cell unsigned number.
pub type UnsignedDoubleNumber = u128;
/// A signed byte.
pub type Byte = i8;
/// An unsigned byte.
pub type UnsignedByte = u8;

/// 2^64, the weight of the upper chunk of a double number.
pub open spec fn chunk_modulus() -> int {
    0x1_0000_0000_0000_0000
}

/// 256^k, the weight of byte `k` within a number.
pub open spec fn byte_weight(k: int) -> int
    decreases k,
{
    if k <= 0 {
        1
    } else {
        256 * byte_weight(k - 1)
    }
}

/// The upper chunk of a double number (floor division by 2^64).
pub open spec fn spec_upper_chunk(x: i128) -> i64 {
    (x as int / chunk_modulus()) as i64
}

/// The lower chunk of a double number (its low 64 bits, as a signed number).
pub open spec fn spec_lower_chunk(x: i128) -> i64 {
    ((x as int - (x as int / chunk_modulus()) * chunk_modulus()) as u64) as i64
}

/// The double number made of a lower and an upper chunk.
pub open spec fn spec_double_from_chunks(lower: i64, upper: i64) -> i128 {
    (upper as int * chunk_modulus() + (lower as u64) as int) as i128
}

/// Byte `k` (0 = least significant) of a number.
pub open spec fn spec_byte_of(x: i64, k: int) -> i8 {
    ((((x as u64) as int / byte_weight(k)) % 256) as u8) as i8
}

/// The number `x` with byte `k` replaced by `b`.
pub open spec fn spec_with_byte(x: i64, k: int, b: i8) -> i64 {
    ((x as u64) as int - spec_byte_of(x, k) as u8 as int * byte_weight(k)
        + (b as u8) as int * byte_weight(k)) as u64 as i64
}

proof fn lemma_byte_weights()
    ensures
        byte_weight(0) == 1,
        byte_weight(1) == 0x100,
        byte_weight(2) == 0x1_0000,
        byte_weight(3) == 0x100_0000,
        byte_weight(4) == 0x1_0000_0000,
        byte_weight(5) == 0x100_0000_0000,
        byte_weight(6) == 0x1_0000_0000_0000,
        byte_weight(7) == 0x100_0000_0000_0000,
{
    reveal_with_fuel(byte_weight, 8);
}

fn byte_weight_of(k: usize) -> (r: u64)
    requires k < 8,
    ensures r == byte_weight(k as int), r > 0,
{
    proof { lemma_byte_weights(); }
    match k {
        0 => 1,
        1 => 0x100,
        2 => 0x1_0000,
        3 => 0x100_0000,
        4 => 0x1_0000_0000,
        5 => 0x100_0000_0000,
        6 => 0x1_0000_0000_0000,
        _ => 0x100_0000_0000_0000,
    }
}

/// Splits a double number into its lower and upper chunks.
pub fn double_to_chunks(x: i128) -> (r: (i64, i64))
    ensures
        r.0 == spec_lower_chunk(x),
        r.1 == spec_upper_chunk(x),
{
    let m: i128 = 0x1_0000_0000_0000_0000;
    let upper: i128 = match x.checked_div_euclid(m) {
        Some(q) => q,
        None => 0,
    };
    assert(upper == x as int / chunk_modulus());
    assert(-0x8000_0000_0000_0000 <= upper < 0x8000_0000_0000_0000) by (nonlinear_arith)
        requires
            upper == x as int / 0x1_0000_0000_0000_0000int,
            -0x8000_0000_0000_0000_0000_0000_0000_0000 <= x < 0x8000_0000_0000_0000_0000_0000_0000_0000;
    let low: i128 = x - upper * m;
    assert(0 <= low < 0x1_0000_0000_0000_0000) by (nonlinear_arith)
        requires
            upper == x as int / 0x1_0000_0000_0000_0000int,
            low == x - upper * 0x1_0000_0000_0000_0000int;
    ((low as u64) as i64, upper as i64)
}

/// Joins a lower and an upper chunk into a double number.
pub fn double_from_chunks(lower: i64, upper: i64) -> (r: i128)
    ensures r == spec_double_from_chunks(lower, upper),
{
    let m: i128 = 0x1_0000_0000_0000_0000;
    assert(-0x8000_0000_0000_0000_0000_0000_0000_0000 <= upper as int * 0x1_0000_0000_0000_0000int
        <= 0x7fff_ffff_ffff_ffff_0000_0000_0000_0000) by (nonlinear_arith)
        requires -0x8000_0000_0000_0000 <= upper < 0x8000_0000_0000_0000;
    (upper as i128) * m + ((lower as u64) as i128)
}

/// Splitting a double number into chunks and joining them again gives the number back.
pub proof fn lemma_double_chunks_roundtrip(x: i128)
    ensures spec_double_from_chunks(spec_lower_chunk(x), spec_upper_chunk(x)) == x,
{
    let q = x as int / chunk_modulus();
    let low = x as int - q * chunk_modulus();
    assert(-0x8000_0000_0000_0000 <= q < 0x8000_0000_0000_0000) by (nonlinear_arith)
        requires
            q == x as int / 0x1_0000_0000_0000_0000int,
            -0x8000_0000_0000_0000_0000_0000_0000_0000 <= x < 0x8000_0000_0000_0000_0000_0000_0000_0000;
    assert(0 <= low < 0x1_0000_0000_0000_0000) by (nonlinear_arith)
        requires
            q == x as int / 0x1_0000_0000_0000_0000int,
            low == x - q * 0x1_0000_0000_0000_0000int;
    let lu = low as u64;
    assert((lu as i64) as u64 == lu) by (bit_vector);
}

/// Joining two chunks and splitting the result gives the chunks back.
pub proof fn lemma_double_chunks_split(lower: i64, upper: i64)
    ensures
        spec_lower_chunk(spec_double_from_chunks(lower, upper)) == lower,
        spec_upper_chunk(spec_double_from_chunks(lower, upper)) == upper,
{
    let lu = lower as u64;
    let v = upper as int * chunk_modulus() + lu as int;
    assert(v / 0x1_0000_0000_0000_0000int == upper && v - upper * 0x1_0000_0000_0000_0000int == lu)
        by (nonlinear_arith)
        requires
            v == upper as int * 0x1_0000_0000_0000_0000int + lu as int,
            0 <= lu < 0x1_0000_0000_0000_0000int;
    assert(-0x8000_0000_0000_0000_0000_0000_0000_0000 <= v < 0x8000_0000_0000_0000_0000_0000_0000_0000)
        by (nonlinear_arith)
        requires
            v == upper as int * 0x1_0000_0000_0000_0000int + lu as int,
            0 <= lu < 0x1_0000_0000_0000_0000int,
            -0x8000_0000_0000_0000 <= upper < 0x8000_0000_0000_0000;
    assert(((lower as u64) as i64) == lower) by (bit_vector);
}

/// Byte `k` of the number `x`.
pub fn byte_of(x: i64, k: usize) -> (r: i8)
    requires k < 8,
    ensures r == spec_byte_of(x, k as int),
{
    let w = byte_weight_of(k);
    let u = x as u64;
    (((u / w) % 256) as u8) as i8
}

/// The number `x` with byte `k` replaced by `b`.
pub fn with_byte(x: i64, k: usize, b: i8) -> (r: i64)
    requires k < 8,
    ensures r == spec_with_byte(x, k as int, b),
{
    let w = byte_weight_of(k);
    let u = x as u64;
    let old_byte = ((u / w) % 256) as u8;
    assert(old_byte as int * w <= u) by (nonlinear_arith)
        requires old_byte == (u as int / w as int) % 256, w > 0;
    let cleared: u64 = u - (old_byte as u64) * w;
    proof { lemma_byte_weights(); }
    assert(cleared as int + 255 * w <= 0xffff_ffff_ffff_ffff) by {
        assert(cleared as int + 255 * w <= 0xffff_ffff_ffff_ffff) by (nonlinear_arith)
            requires
                old_byte == (u as int / w as int) % 256,
                cleared == u - old_byte * w,
                w == 1 || w == 0x100 || w == 0x1_0000 || w == 0x100_0000 || w == 0x1_0000_0000
                    || w == 0x100_0000_0000 || w == 0x1_0000_0000_0000 || w == 0x100_0000_0000_0000,
                u <= 0xffff_ffff_ffff_ffff;
    }
    assert((b as u8) as int * w <= 255 * w) by (nonlinear_arith)
        requires (b as u8) <= 255, w > 0;
    let replaced: u64 = cleared + (b as u8 as u64) * w;
    assert((old_byte as i8) as u8 == old_byte) by (bit_vector);
    assert(spec_byte_of(x, k as int) as u8 == old_byte);
    replaced as i64
}

/// Byte `k` of a number after replacing byte `k` with `b` is `b`.
pub proof fn lemma_with_byte_reads_back(x: i64, k: int, b: i8)
    requires 0 <= k < 8,
    ensures spec_byte_of(spec_with_byte(x, k, b), k) == b,
{
    lemma_byte_weights();
    let w = byte_weight(k);
    let u = (x as u64) as int;
    let old_byte = spec_byte_of(x, k) as u8 as int;
    let nb = (b as u8) as int;
    assert(old_byte == (u / w) % 256) by {
        assert(0 <= (u / w) % 256 < 256) by (nonlinear_arith) requires w > 0, u >= 0;
        let t = ((u / w) % 256) as u8;
        assert((t as i8) as u8 == t) by (bit_vector);
        assert(spec_byte_of(x, k) == t as i8);
    }
    let r = u - old_byte * w + nb * w;
    assert(0 <= r <= 0xffff_ffff_ffff_ffff && (r / w) % 256 == nb) by (nonlinear_arith)
        requires
            old_byte == (u / w) % 256,
            r == u - old_byte * w + nb * w,
            0 <= nb < 256,
            0 <= u <= 0xffff_ffff_ffff_ffff,
            w == 1 || w == 0x100 || w == 0x1_0000 || w == 0x100_0000 || w == 0x1_0000_0000
                || w == 0x100_0000_0000 || w == 0x1_0000_0000_0000 || w == 0x100_0000_0000_0000;
    let ru = r as u64;
    assert(((ru as i64) as u64) == ru) by (bit_vector);
    let nbu = b as u8;
    assert(((nbu as i8)) == b) by (bit_vector) requires nbu == b as u8;
}


/// The number held by a read cell, or the read's error.
pub open spec fn number_result(r: Result<Value, Error>) -> Result<i64, Error> {
    match r {
        Ok(v) => Ok(v.spec_to_number()),
        Err(e) => Err(e),
    }
}

/// The double number held by two read cells (lower chunk first), or the first error.
pub open spec fn double_result(first: Result<Value, Error>, second: Result<Value, Error>) -> Result<i128, Error> {
    match first {
        Ok(a) => match second {
            Ok(b) => Ok(spec_double_from_chunks(a.spec_to_number(), b.spec_to_number())),
            Err(e) => Err(e),
        },
        Err(e) => Err(e),
    }
}

/// The byte of a read cell that `address` points into, or the read's error.
pub open spec fn byte_result(r: Result<Value, Error>, address: Address) -> Result<i8, Error> {
    match r {
        Ok(v) => Ok(spec_byte_of(v.spec_to_number(), address.raw() % 8)),
        Err(e) => Err(e),
    }
}

/// A byte as a cell: zero-extended.
pub open spec fn byte_cell(b: i8) -> Value {
    Value::Number((b as u8) as i64)
}

/// Pops one cell and reads it as a number.
fn pop_number_cell(stack: &mut Stack) -> (r: Result<i64, Error>)
    ensures
        final(stack).spec_stack_base() == old(stack).spec_stack_base(),
        final(stack).spec_frame_offset() == old(stack).spec_frame_offset(),
        old(stack)@.len() >= 1 ==> final(stack)@ == old(stack)@.take(old(stack)@.len() - 1) && r
            == Ok::<i64, Error>(old(stack)@.last().spec_to_number()),
        old(stack)@.len() < 1 ==> final(stack)@ == Seq::<Value>::empty() && r == Err::<i64, Error>(
            Error::StackUnderflow,
        ),
{
    match stack.pop_value() {
        Ok(v) => {
            assert(old(stack)@.take(old(stack)@.len() - 1) =~= old(stack)@.drop_last());
            Ok(v.to_number())
        },
        Err(e) => Err(e),
    }
}

/// Pops two cells (upper chunk on top) and joins them into a double number.
fn pop_double_cells(stack: &mut Stack) -> (r: Result<i128, Error>)
    ensures
        final(stack).spec_stack_base() == old(stack).spec_stack_base(),
        final(stack).spec_frame_offset() == old(stack).spec_frame_offset(),
        old(stack)@.len() >= 2 ==> final(stack)@ == old(stack)@.take(old(stack)@.len() - 2) && r
            == Ok::<i128, Error>(spec_double_from_chunks(
            old(stack)@[old(stack)@.len() - 2].spec_to_number(),
            old(stack)@[old(stack)@.len() - 1].spec_to_number(),
        )),
        old(stack)@.len() < 2 ==> final(stack)@ == Seq::<Value>::empty() && r == Err::<i128, Error>(
            Error::StackUnderflow,
        ),
{
    match stack.pop_value() {
        Ok(upper) => match stack.pop_value() {
            Ok(lower) => {
                assert(old(stack)@.take(old(stack)@.len() - 2) =~= stack@);
                Ok(double_from_chunks(lower.to_number(), upper.to_number()))
            },
            Err(e) => Err(e),
        },
        Err(e) => Err(e),
    }
}

/// Writes a byte into the cell that `address` points into, keeping the other bytes.
fn write_byte<M: MemorySegment>(memory: &mut M, address: Address, b: i8) -> (r: ForthResult)
    requires old(memory).wf(),
    ensures
        final(memory).wf(),
        final(memory).spec_base() == old(memory).spec_base(),
        final(memory).spec_end() == old(memory).spec_end(),
        forall|a: Address| #[trigger] final(memory).spec_contains(a) == old(memory).spec_contains(a),
        forall|a: Address| #[trigger] final(memory).spec_cell_index(a) == old(memory).spec_cell_index(a),
        old(memory).spec_contains(address) ==> r is Ok,
        !old(memory).spec_contains(address) ==> r == Err::<(), Error>(Error::InvalidAddress),
        r is Err ==> *final(memory) == *old(memory),
        final(memory).spec_extent() == old(memory).spec_extent(),
        final(memory).spec_same_shape(old(memory)),
        forall|a: Address|
            old(memory).spec_contains(a) ==> #[trigger] final(memory).spec_read(a) == if r is Ok
                && old(memory).spec_cell_index(a) == old(memory).spec_cell_index(address) {
                Value::Number(spec_with_byte(old(memory).spec_read(address).spec_to_number(), address.raw() % 8, b))
            } else {
                old(memory).spec_read(a)
            },
{
    match memory.read_value(address) {
        Ok(cell) => {
            let k = address.get_cell_byte() as usize;
            let updated = with_byte(cell.to_number(), k, b);
            memory.write_value(address, Value::Number(updated))
        },
        Err(e) => {
            proof { memory.lemma_same_shape_refl(); }
            Err(e)
        },
    }
}

impl ValueVariant for i64 {
    open spec fn spec_size() -> nat {
        1
    }

    open spec fn spec_stack_cells(self) -> Seq<Value> {
        seq![Value::Number(self)]
    }

    open spec fn spec_from_stack(cells: Seq<Value>) -> Result<Self, Error> {
        Ok(cells[0].spec_to_number())
    }

    open spec fn spec_memory_cells(self) -> Seq<Value> {
        seq![Value::Number(self)]
    }

    open spec fn spec_from_memory(first: Result<Value, Error>, second: Result<Value, Error>, address: Address) -> Result<Self, Error> {
        number_result(first)
    }

    open spec fn spec_write_first(self, old_first: Value, address: Address) -> Value {
        Value::Number(self)
    }

    open spec fn spec_write_second(self) -> Value {
        Value::Number(self)
    }

    fn size() -> (r: u64) {
        1
    }

    fn push_to_stack(self, stack: &mut Stack) {
        stack.push_value(Value::Number(self));
        assert(stack@ =~= old(stack)@ + seq![Value::Number(self)]);
    }

    fn pop_from_stack(stack: &mut Stack) -> (r: Result<Self, Error>) {
        let r = pop_number_cell(stack);
        proof {
            if old(stack)@.len() >= 1 {
                assert(old(stack)@.skip(old(stack)@.len() - 1)[0] == old(stack)@.last());
            }
        }
        r
    }

    fn write_to_memory<M: MemorySegment>(self, memory: &mut M, address: Address) -> (r: ForthResult) {
        memory.write_value(address, Value::Number(self))
    }

    fn read_from_memory<M: MemorySegment>(memory: &M, address: Address) -> (r: Result<Self, Error>) {
        match memory.read_value(address) {
            Ok(v) => Ok(v.to_number()),
            Err(e) => Err(e),
        }
    }

    fn push_to_memory(self, memory: &mut Memory) {
        memory.push_value(Value::Number(self));
        assert(memory.view() =~= old(memory).view() + seq![Value::Number(self)]);
    }
}

impl ValueVariant for u64 {
    open spec fn spec_size() -> nat {
        1
    }

    open spec fn spec_stack_cells(self) -> Seq<Value> {
        seq![Value::Number(self as i64)]
    }

    open spec fn spec_from_stack(cells: Seq<Value>) -> Result<Self, Error> {
        Ok(cells[0].spec_to_number() as u64)
    }

    open spec fn spec_memory_cells(self) -> Seq<Value> {
        seq![Value::Number(self as i64)]
    }

    open spec fn spec_from_memory(first: Result<Value, Error>, second: Result<Value, Error>, address: Address) -> Result<Self, Error> {
        match number_result(first) {
            Ok(n) => Ok(n as u64),
            Err(e) => Err(e),
        }
    }

    open spec fn spec_write_first(self, old_first: Value, address: Address) -> Value {
        Value::Number(self as i64)
    }

    open spec fn spec_write_second(self) -> Value {
        Value::Number(self as i64)
    }

    fn size() -> (r: u64) {
        1
    }

    fn push_to_stack(self, stack: &mut Stack) {
        stack.push_value(Value::Number(self as i64));
        assert(stack@ =~= old(stack)@ + seq![Value::Number(self as i64)]);
    }

    fn pop_from_stack(stack: &mut Stack) -> (r: Result<Self, Error>) {
        let r = pop_number_cell(stack);
        proof {
            if old(stack)@.len() >= 1 {
                assert(old(stack)@.skip(old(stack)@.len() - 1)[0] == old(stack)@.last());
            }
        }
        match r {
            Ok(n) => Ok(n as u64),
            Err(e) => Err(e),
        }
    }

    fn write_to_memory<M: MemorySegment>(self, memory: &mut M, address: Address) -> (r: ForthResult) {
        memory.write_value(address, Value::Number(self as i64))
    }

    fn read_from_memory<M: MemorySegment>(memory: &M, address: Address) -> (r: Result<Self, Error>) {
        match memory.read_value(address) {
            Ok(v) => Ok(v.to_number() as u64),
            Err(e) => Err(e),
        }
    }

    fn push_to_memory(self, memory: &mut Memory) {
        memory.push_value(Value::Number(self as i64));
        assert(memory.view() =~= old(memory).view() + seq![Value::Number(self as i64)]);
    }
}

impl ValueVariant for i8 {
    open spec fn spec_size() -> nat {
        1
    }

    open spec fn spec_stack_cells(self) -> Seq<Value> {
        seq![byte_cell(self)]
    }

    open spec fn spec_from_stack(cells: Seq<Value>) -> Result<Self, Error> {
        Ok(spec_byte_of(cells[0].spec_to_number(), 0))
    }

    open spec fn spec_memory_cells(self) -> Seq<Value> {
        seq![byte_cell(self)]
    }

    open spec fn spec_from_memory(first: Result<Value, Error>, second: Result<Value, Error>, address: Address) -> Result<Self, Error> {
        byte_result(first, address)
    }

    open spec fn spec_write_first(self, old_first: Value, address: Address) -> Value {
        Value::Number(spec_with_byte(old_first.spec_to_number(), address.raw() % 8, self))
    }

    open spec fn spec_write_second(self) -> Value {
        byte_cell(self)
    }

    fn size() -> (r: u64) {
        1
    }

    fn push_to_stack(self, stack: &mut Stack) {
        let cell = Value::Number((self as u8) as i64);
        assert(cell == byte_cell(self));
        stack.push_value(cell);
        assert(self.spec_stack_cells() == seq![byte_cell(self)]);
        assert(seq![byte_cell(self)].len() == 1);
        assert(Self::spec_size() == 1);
        assert(stack@ =~= old(stack)@ + seq![byte_cell(self)]);
    }

    fn pop_from_stack(stack: &mut Stack) -> (r: Result<Self, Error>) {
        let r = pop_number_cell(stack);
        proof {
            if old(stack)@.len() >= 1 {
                assert(old(stack)@.skip(old(stack)@.len() - 1)[0] == old(stack)@.last());
            }
        }
        match r {
            Ok(n) => Ok(byte_of(n, 0)),
            Err(e) => Err(e),
        }
    }

    fn write_to_memory<M: MemorySegment>(self, memory: &mut M, address: Address) -> (r: ForthResult) {
        write_byte(memory, address, self)
    }

    fn read_from_memory<M: MemorySegment>(memory: &M, address: Address) -> (r: Result<Self, Error>) {
        match memory.read_value(address) {
            Ok(v) => Ok(byte_of(v.to_number(), address.get_cell_byte() as usize)),
            Err(e) => Err(e),
        }
    }

    fn push_to_memory(self, memory: &mut Memory) {
        memory.push_value(Value::Number((self as u8) as i64));
        assert(memory.view() =~= old(memory).view() + seq![byte_cell(self)]);
    }
}

impl ValueVariant for u8 {
    open spec fn spec_size() -> nat {
        1
    }

    open spec fn spec_stack_cells(self) -> Seq<Value> {
        seq![byte_cell(self as i8)]
    }

    open spec fn spec_from_stack(cells: Seq<Value>) -> Result<Self, Error> {
        Ok(spec_byte_of(cells[0].spec_to_number(), 0) as u8)
    }

    open spec fn spec_memory_cells(self) -> Seq<Value> {
        seq![byte_cell(self as i8)]
    }

    open spec fn spec_from_memory(first: Result<Value, Error>, second: Result<Value, Error>, address: Address) -> Result<Self, Error> {
        match byte_result(first, address) {
            Ok(b) => Ok(b as u8),
            Err(e) => Err(e),
        }
    }

    open spec fn spec_write_first(self, old_first: Value, address: Address) -> Value {
        Value::Number(spec_with_byte(old_first.spec_to_number(), address.raw() % 8, self as i8))
    }

    open spec fn spec_write_second(self) -> Value {
        byte_cell(self as i8)
    }

    fn size() -> (r: u64) {
        1
    }

    fn push_to_stack(self, stack: &mut Stack) {
        (self as i8).push_to_stack(stack)
    }

    fn pop_from_stack(stack: &mut Stack) -> (r: Result<Self, Error>) {
        match i8::pop_from_stack(stack) {
            Ok(b) => Ok(b as u8),
            Err(e) => Err(e),
        }
    }

    fn write_to_memory<M: MemorySegment>(self, memory: &mut M, address: Address) -> (r: ForthResult) {
        write_byte(memory, address, self as i8)
    }

    fn read_from_memory<M: MemorySegment>(memory: &M, address: Address) -> (r: Result<Self, Error>) {
        match i8::read_from_memory(memory, address) {
            Ok(b) => Ok(b as u8),
            Err(e) => Err(e),
        }
    }

    fn push_to_memory(self, memory: &mut Memory) {
        (self as i8).push_to_memory(memory)
    }
}

impl ValueVariant for i128 {
    open spec fn spec_size() -> nat {
        2
    }

    open spec fn spec_stack_cells(self) -> Seq<Value> {
        seq![Value::Number(spec_lower_chunk(self)), Value::Number(spec_upper_chunk(self))]
    }

    open spec fn spec_from_stack(cells: Seq<Value>) -> Result<Self, Error> {
        Ok(spec_double_from_chunks(cells[0].spec_to_number(), cells[1].spec_to_number()))
    }

    open spec fn spec_memory_cells(self) -> Seq<Value> {
        seq![Value::Number(spec_lower_chunk(self)), Value::Number(spec_upper_chunk(self))]
    }

    open spec fn spec_from_memory(first: Result<Value, Error>, second: Result<Value, Error>, address: Address) -> Result<Self, Error> {
        double_result(first, second)
    }

    open spec fn spec_write_first(self, old_first: Value, address: Address) -> Value {
        Value::Number(spec_lower_chunk(self))
    }

    open spec fn spec_write_second(self) -> Value {
        Value::Number(spec_upper_chunk(self))
    }

    fn size() -> (r: u64) {
        2
    }

    fn push_to_stack(self, stack: &mut Stack) {
        let (lower, upper) = double_to_chunks(self);
        stack.push_value(Value::Number(lower));
        stack.push_value(Value::Number(upper));
        assert(stack@ =~= old(stack)@ + self.spec_stack_cells());
    }

    fn pop_from_stack(stack: &mut Stack) -> (r: Result<Self, Error>) {
        let r = pop_double_cells(stack);
        proof {
            if old(stack)@.len() >= 2 {
                let t = old(stack)@.skip(old(stack)@.len() - 2);
                assert(t[0] == old(stack)@[old(stack)@.len() - 2]);
                assert(t[1] == old(stack)@[old(stack)@.len() - 1]);
            }
        }
        r
    }

    fn write_to_memory<M: MemorySegment>(self, memory: &mut M, address: Address) -> (r: ForthResult) {
        let (lower, upper) = double_to_chunks(self);
        memory::write_two(memory, address, Value::Number(lower), Value::Number(upper))
    }

    fn read_from_memory<M: MemorySegment>(memory: &M, address: Address) -> (r: Result<Self, Error>) {
        let (a, b) = memory::read_two(memory, address);
        match a {
            Ok(a) => match b {
                Ok(b) => Ok(double_from_chunks(a.to_number(), b.to_number())),
                Err(e) => Err(e),
            },
            Err(e) => Err(e),
        }
    }

    fn push_to_memory(self, memory: &mut Memory) {
        let (lower, upper) = double_to_chunks(self);
        memory.push_value(Value::Number(lower));
        memory.push_value(Value::Number(upper));
        assert(memory.view() =~= old(memory).view() + self.spec_memory_cells());
    }
}

impl ValueVariant for u128 {
    open spec fn spec_size() -> nat {
        2
    }

    open spec fn spec_stack_cells(self) -> Seq<Value> {
        (self as i128).spec_stack_cells()
    }

    open spec fn spec_from_stack(cells: Seq<Value>) -> Result<Self, Error> {
        Ok(spec_double_from_chunks(cells[0].spec_to_number(), cells[1].spec_to_number()) as u128)
    }

    open spec fn spec_memory_cells(self) -> Seq<Value> {
        (self as i128).spec_memory_cells()
    }

    open spec fn spec_from_memory(first: Result<Value, Error>, second: Result<Value, Error>, address: Address) -> Result<Self, Error> {
        match double_result(first, second) {
            Ok(n) => Ok(n as u128),
            Err(e) => Err(e),
        }
    }

    open spec fn spec_write_first(self, old_first: Value, address: Address) -> Value {
        Value::Number(spec_lower_chunk(self as i128))
    }

    open spec fn spec_write_second(self) -> Value {
        Value::Number(spec_upper_chunk(self as i128))
    }

    fn size() -> (r: u64) {
        2
    }

    fn push_to_stack(self, stack: &mut Stack) {
        (self as i128).push_to_stack(stack)
    }

    fn pop_from_stack(stack: &mut Stack) -> (r: Result<Self, Error>) {
        match i128::pop_from_stack(stack) {
            Ok(n) => Ok(n as u128),
            Err(e) => Err(e),
        }
    }

    fn write_to_memory<M: MemorySegment>(self, memory: &mut M, address: Address) -> (r: ForthResult) {
        (self as i128).write_to_memory(memory, address)
    }

    fn read_from_memory<M: MemorySegment>(memory: &M, address: Address) -> (r: Result<Self, Error>) {
        match i128::read_from_memory(memory, address) {
            Ok(n) => Ok(n as u128),
            Err(e) => Err(e),
        }
    }

    fn push_to_memory(self, memory: &mut Memory) {
        (self as i128).push_to_memory(memory)
    }
}

} // verus!
