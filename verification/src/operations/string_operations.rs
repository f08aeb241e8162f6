use vstd::prelude::*;
use crate::environment::memory::Address;
use crate::environment::units::Bytes;
use crate::environment::value::{Value, ValueVariant};
use crate::evaluate::execution::{lemma_write_keeps, Field};
use crate::evaluate::{Error, ForthResult, ForthState};
use crate::io::tokens::{is_space, is_whitespace};
use crate::operations::control_flow_operations::char_of_byte;
use crate::operations::memory_operations::{address_of, pop_address};
use crate::operations::Operation;

verus! {

/// The byte a character is stored as: its code modulo 256.
pub open spec fn byte_of_char(c: char) -> u8 {
    ((c as u32) % 256) as u8
}

fn char_byte(c: char) -> (r: u8)
    ensures r == byte_of_char(c),
{
    ((c as u32) % 256) as u8
}

/// Writes `value` at `address` (as `ForthState::write` does), keeping all but memory.
pub fn write_keeping<T: ValueVariant>(state: &mut ForthState, address: Address, value: T) -> (r: ForthResult)
    requires old(state).wf(),
    ensures
        final(state).wf(),
        final(state).keeps_non_memory(old(state)),
        final(state).input_stream == old(state).input_stream,
        ForthState::spec_write_effect(old(state), final(state), address, value, r),
{
    let r = state.write(address, value);
    proof {
        lemma_write_keeps(old(state), state, address, value, r);
    }
    r
}

/// What `get_char` does to a machine, and what it answers.
pub open spec fn get_char_effect(old: &ForthState, new: &ForthState, r: ForthResult) -> bool {
    &&& (new.wf())
    &&& (new.unchanged_except(old, set![Field::Stack, Field::Input]))
    &&& (old.input_stream.spec_rest().len() == 0 ==> r == Err::<(), Error>(Error::NoMoreTokens))
    &&& (old.input_stream.spec_rest().len() > 0 ==> r is Ok && new.stack@ == old.stack@
                + (byte_of_char(old.input_stream.spec_rest()[0]) as i8).spec_stack_cells())
}

/// Reads the next input character and pushes its code (`CHAR`, `KEY`).
pub fn get_char(state: &mut ForthState) -> (r: ForthResult)
    requires old(state).wf(),
    ensures
        get_char_effect(old(state), final(state), r),
{
    let c = match state.input_stream.next_char() {
        Ok(c) => c,
        Err(e) => {
            return Err(e);
        },
    };
    state.stack.push(char_byte(c) as i8);
    Ok(())
}

/// The text of `rest` before the first `delimiter`, and what follows that delimiter; none
/// where `rest` holds no `delimiter`.
pub open spec fn split_at_delimiter(rest: Seq<char>, delimiter: char) -> Option<(Seq<char>, Seq<char>)>
    decreases rest.len(),
{
    if rest.len() == 0 {
        None
    } else if rest[0] == delimiter {
        Some((Seq::empty(), rest.skip(1)))
    } else {
        match split_at_delimiter(rest.skip(1), delimiter) {
            Some((text, after)) => Some((seq![rest[0]] + text, after)),
            None => None,
        }
    }
}

/// Stores the input up to `delimiter` as a counted string at the end of the data space:
/// a length byte, then the characters' bytes, growing the data space as needed.
pub fn read_string_to_memory(state: &mut ForthState, delimiter: char) -> (r: ForthResult)
    requires old(state).wf(),
    ensures
        final(state).wf(),
        final(state).keeps_non_memory(old(state)),
        r is Ok ==> (split_at_delimiter(old(state).input_stream.spec_rest(), delimiter) matches Some((text, after))
            && final(state).input_stream.spec_rest() == after),
        split_at_delimiter(old(state).input_stream.spec_rest(), delimiter) is None ==> r is Err,
{
    let length_address = state.here_address();
    if length_address.0.0 == u64::MAX {
        return Err(Error::InvalidAddress);
    }
    let mut string_address = length_address.plus(Bytes(1));
    let mut length: u8 = 0;
    loop
        invariant_except_break
            split_at_delimiter(old(state).input_stream.spec_rest(), delimiter) is None
                <==> split_at_delimiter(state.input_stream.spec_rest(), delimiter) is None,
            split_at_delimiter(state.input_stream.spec_rest(), delimiter) is Some ==> split_at_delimiter(
                old(state).input_stream.spec_rest(),
                delimiter,
            )->Some_0.1 == split_at_delimiter(state.input_stream.spec_rest(), delimiter)->Some_0.1,
        invariant
            state.wf(),
            state.keeps_non_memory(old(state)),
        ensures
            split_at_delimiter(old(state).input_stream.spec_rest(), delimiter) is Some,
            split_at_delimiter(old(state).input_stream.spec_rest(), delimiter)->Some_0.1 == state.input_stream.spec_rest(),
        decreases state.input_stream.spec_rest().len(),
    {
        let ghost rest = state.input_stream.spec_rest();
        let c = match state.input_stream.next_char() {
            Ok(c) => c,
            Err(e) => {
                return Err(e);
            },
        };
        if c == delimiter {
            break;
        }
        let top = state.here_address();
        if !string_address.less_than(top) {
            match state.push_data_none::<Value>() {
                Ok(()) => {},
                Err(e) => {
                    return Err(e);
                },
            }
        }
        let w = write_keeping(state, string_address, char_byte(c));
        match w {
            Ok(()) => {},
            Err(e) => {
                return Err(e);
            },
        }
        if string_address.0.0 == u64::MAX {
            return Err(Error::InvalidAddress);
        }
        string_address.increment();
        length = length.wrapping_add(1);
    }
    let ghost mid = *state;
    let w = state.write(length_address, length);
    proof {
        lemma_write_keeps(&mid, state, length_address, length, w);
    }
    w
}

/// What `get_word` does to a machine, and what it answers.
pub open spec fn get_word_effect(old: &ForthState, new: &ForthState, r: ForthResult) -> bool {
    &&& (new.wf())
    &&& (new.keeps_non_memory(old))
    &&& (old.stack@.len() == 0 ==> r == Err::<(), Error>(Error::StackUnderflow))
}

/// Pops a delimiter, stores the input up to it as a counted string at the end of the data
/// space, and pushes the string's address (`WORD`).
pub fn get_word(state: &mut ForthState) -> (r: ForthResult)
    requires old(state).wf(),
    ensures
        get_word_effect(old(state), final(state), r),
{
    let delimiter = match state.stack.pop::<u8>() {
        Ok(d) => d,
        Err(e) => {
            return Err(e);
        },
    };
    let address = state.here_address();
    match read_string_to_memory(state, char_of_byte(delimiter)) {
        Ok(()) => {},
        Err(e) => {
            return Err(e);
        },
    }
    state.stack.push(address);
    Ok(())
}

/// The byte `i` places past `address` as the machine reads it; `InvalidAddress` past the end
/// of the address space.
pub open spec fn byte_at(state: &ForthState, address: Address, i: int) -> Result<u8, Error> {
    if address.raw() + i <= u64::MAX {
        state.spec_read_as::<u8>(Address(Bytes((address.raw() + i) as u64)))
    } else {
        Err(Error::InvalidAddress)
    }
}

/// Whether a byte is kept at the end of a string: it is ASCII and not white space.
pub open spec fn kept_byte(b: u8) -> bool {
    b < 128 && !is_space(b as char)
}

/// Whether `n` is the length of the `count` bytes at `address` once the bytes at their end
/// that are white space or not ASCII are cut off.
pub open spec fn trimmed_length(state: &ForthState, address: Address, count: int, n: int) -> bool {
    &&& 0 <= n <= count
    &&& (n == 0 || (byte_at(state, address, n - 1) matches Ok(b) && kept_byte(b)))
    &&& forall|i: int| n <= i < count ==> (#[trigger] byte_at(state, address, i) matches Ok(b) && !kept_byte(b))
}

/// Whether every one of the `count` bytes at `address` can be read.
pub open spec fn all_bytes_readable(state: &ForthState, address: Address, count: int) -> bool {
    forall|i: int| 0 <= i < count ==> #[trigger] byte_at(state, address, i) is Ok
}

/// Whether `e` is what reading the first unreadable one of the `count` bytes at `address` gives.
pub open spec fn first_byte_error(state: &ForthState, address: Address, count: int, e: Error) -> bool {
    exists|i: int|
        0 <= i < count && #[trigger] byte_at(state, address, i) == Err::<u8, Error>(e) && all_bytes_readable(
            state,
            address,
            i,
        )
}

/// Whether `mid` is `old` with the `k` top cells of its stack popped and nothing else changed.
pub open spec fn popped(old: &ForthState, mid: ForthState, k: nat) -> bool {
    &&& old.stack@.len() >= k
    &&& mid.unchanged_except(old, set![Field::Stack])
    &&& mid.stack@ == old.stack@.take(old.stack@.len() - k)
}

/// What `trailing` answers, and the stack it leaves, where its bytes are read from `mid`
/// and `s` is the stack it started with.
pub open spec fn trailing_answer(mid: &ForthState, s: Seq<Value>, new: &ForthState, r: ForthResult) -> bool {
    let count = s.last().spec_to_number() as u64;
    let address = address_of(s[s.len() - 2]);
    &&& (r is Ok <==> all_bytes_readable(mid, address, count as int))
    &&& (r matches Err(e) ==> first_byte_error(mid, address, count as int, e))
    &&& (r is Ok ==> {
        &&& new.stack@.len() == s.len()
        &&& new.stack@.take(s.len() - 2) == s.take(s.len() - 2)
        &&& new.stack@[s.len() - 2] == Value::Number(address.raw() as i64)
        &&& trimmed_length(mid, address, count as int, (new.stack@.last().spec_to_number() as u64) as int)
    })
}

/// What `trailing` does to a machine, and what it answers: the bytes are read once the
/// count and the address are off the stack.
pub open spec fn trailing_effect(old: &ForthState, new: &ForthState, r: ForthResult) -> bool {
    &&& (new.wf())
    &&& (new.unchanged_except(old, set![Field::Stack]))
    &&& (old.stack@.len() < 2 ==> r == Err::<(), Error>(Error::StackUnderflow))
    &&& (r is Ok ==> new.stack@.len() == old.stack@.len())
    &&& (old.stack@.len() >= 2 ==> exists|mid: ForthState|
        #[trigger] popped(old, mid, 2) && trailing_answer(&mid, old.stack@, new, r))
}

/// Two machines that both are `old` with its `k` top cells popped read the same bytes.
pub proof fn lemma_popped_reads(old: &ForthState, m1: ForthState, m2: ForthState, k: nat, address: Address, i: int)
    requires
        popped(old, m1, k),
        popped(old, m2, k),
    ensures
        byte_at(&m1, address, i) == byte_at(&m2, address, i),
{
}

/// Pops a count and an address, and pushes the address and the count without trailing
/// white space or non-ASCII bytes (`-TRAILING`).
pub fn trailing(state: &mut ForthState) -> (r: ForthResult)
    requires old(state).wf(),
    ensures
        trailing_effect(old(state), final(state), r),
{
    let ghost s = state.stack@;
    let count = match state.stack.pop::<u64>() {
        Ok(c) => c,
        Err(e) => {
            return Err(e);
        },
    };
    proof {
        assert(s.skip(s.len() - 1)[0] == s.last());
    }
    let ghost s1 = state.stack@;
    let address = match pop_address(state) {
        Ok(a) => a,
        Err(e) => {
            return Err(e);
        },
    };
    proof {
        assert(s1.last() == s[s.len() - 2]);
    }
    let ghost mid = *state;
    proof {
        assert(mid.stack@ =~= s.take(s.len() - 2));
        assert(popped(old(state), mid, 2));
    }
    let new_count = match trailing_count(state, address, count) {
        Ok(n) => n,
        Err(e) => {
            assert(trailing_answer(&mid, s, state, Err(e)));
            return Err(e);
        },
    };
    state.stack.push(address);
    state.stack.push(new_count);
    proof {
        let t = state.stack@;
        assert(t.take(s.len() - 2) =~= s.take(s.len() - 2));
        assert((new_count as i64) as u64 == new_count) by (bit_vector);
        assert(trailing_answer(&mid, s, state, Ok(())));
    }
    Ok(())
}

/// The length of the `count` bytes at `address` without their trailing white space and
/// non-ASCII bytes.
fn trailing_count(state: &ForthState, address: Address, count: u64) -> (r: Result<u64, Error>)
    requires state.wf(),
    ensures
        r is Ok <==> all_bytes_readable(state, address, count as int),
        r matches Ok(n) ==> trimmed_length(state, address, count as int, n as int),
        r matches Err(e) ==> first_byte_error(state, address, count as int, e),
{
    let mut new_count: u64 = 0;
    let mut i: u64 = 0;
    while i < count
        invariant
            state.wf(),
            new_count <= i,
            i <= count,
            all_bytes_readable(state, address, i as int),
            new_count == 0 || (byte_at(state, address, new_count - 1) matches Ok(b) && kept_byte(b)),
            forall|j: int| new_count <= j < i ==> (#[trigger] byte_at(state, address, j) matches Ok(b) && !kept_byte(b)),
        decreases count - i,
    {
        let a = match address.checked_plus(Bytes(i)) {
            Ok(a) => a,
            Err(e) => {
                assert(byte_at(state, address, i as int) == Err::<u8, Error>(e));
                return Err(e);
            },
        };
        let c = match state.read::<u8>(a) {
            Ok(c) => c,
            Err(e) => {
                assert(byte_at(state, address, i as int) == Err::<u8, Error>(e));
                return Err(e);
            },
        };
        let ch = char_of_byte(c);
        assert(ch == c as char);
        if c < 128 && !is_whitespace(ch) {
            new_count = i + 1;
        }
        i = i + 1;
    }
    Ok(new_count)
}

/// What `cmove` does to a machine, and what it answers.
pub open spec fn cmove_effect(old: &ForthState, new: &ForthState, r: ForthResult) -> bool {
    &&& (new.wf())
    &&& (new.keeps_non_memory(old))
    &&& (new.input_stream == old.input_stream)
    &&& (old.stack@.len() < 3 ==> r == Err::<(), Error>(Error::StackUnderflow))
    &&& (old.stack@.len() >= 3 ==> exists|mid: ForthState|
        #[trigger] popped(old, mid, 3) && cmove_answer(mid, old.stack@, new, r))
}

/// Whether `after` is `before` once the cell `v` was written at `address`, with the answer `r`.
#[verifier::opaque]
pub open spec fn wrote_cell(before: &ForthState, after: &ForthState, address: Address, v: Bytes, r: ForthResult) -> bool {
    ForthState::spec_write_effect(before, after, address, v, r)
}

/// What reading a cell (as `Bytes`) at `address` of `state` gives.
#[verifier::opaque]
pub open spec fn cell_read(state: &ForthState, address: Address) -> Result<Bytes, Error> {
    state.spec_read_as::<Bytes>(address)
}

/// Reads a cell (as `Bytes`) at `address`.
fn read_cell(state: &ForthState, address: Address) -> (r: Result<Bytes, Error>)
    requires state.wf(),
    ensures r == cell_read(state, address),
{
    let r = state.read::<Bytes>(address);
    proof {
        reveal(cell_read);
    }
    r
}

/// Whether `states` runs from `start` through `n` steps, step `j` reading a cell `j` bytes
/// past `source` and writing it `j` bytes past `destination`, each read and write succeeding.
pub open spec fn cell_copies(start: ForthState, states: Seq<ForthState>, source: Address, destination: Address, n: nat) -> bool {
    &&& states.len() == n + 1
    &&& states[0] == start
    &&& forall|j: int|
        0 <= j < n ==> source.raw() + j <= u64::MAX && destination.raw() + j <= u64::MAX && (
        #[trigger] cell_read(&states[j], byte_address(source, j)) matches Ok(v) && wrote_cell(
            &states[j],
            &states[j + 1],
            byte_address(destination, j),
            v,
            Ok::<(), Error>(()),
        ))
}

/// How a run of `count` cell copies through `states` ends: all done and success, or the next
/// step refused (an address past the end of the address space, a read or a write refused by
/// the machine) with the machine left as that step found it, but for the write it tried.
pub open spec fn cell_copy_outcome(states: Seq<ForthState>, source: Address, destination: Address, count: nat, new: &ForthState, r: ForthResult) -> bool {
    let k = states.len() - 1;
    let last = states.last();
    &&& 0 <= k <= count
    &&& (k == count ==> r == Ok::<(), Error>(()) && *new == last)
    &&& (k < count ==> r is Err && if source.raw() + k > u64::MAX || destination.raw() + k > u64::MAX {
        r == Err::<(), Error>(Error::InvalidAddress) && *new == last
    } else {
        match cell_read(&last, byte_address(source, k)) {
            Err(e) => r == Err::<(), Error>(e) && *new == last,
            Ok(v) => wrote_cell(&last, new, byte_address(destination, k), v, r) && *new == last,
        }
    })
}

/// What `cmove` answers, and the machine it leaves, where `mid` is the machine once the
/// operands are popped and `s` the stack it started with.
pub open spec fn cmove_answer(mid: ForthState, s: Seq<Value>, new: &ForthState, r: ForthResult) -> bool {
    let count = s.last().spec_to_number() as u64;
    let destination = address_of(s[s.len() - 2]);
    let source = address_of(s[s.len() - 3]);
    exists|states: Seq<ForthState>|
        #[trigger] cell_copies(mid, states, source, destination, (states.len() - 1) as nat) && cell_copy_outcome(
            states,
            source,
            destination,
            count as nat,
            new,
            r,
        )
}

/// Writes the cell `v` at `address`, keeping all but memory.
fn write_cell(state: &mut ForthState, address: Address, v: Bytes) -> (r: ForthResult)
    requires old(state).wf(),
    ensures
        final(state).wf(),
        final(state).keeps_non_memory(old(state)),
        final(state).input_stream == old(state).input_stream,
        wrote_cell(old(state), final(state), address, v, r),
        r is Err ==> *final(state) == *old(state),
        r is Ok ==> wrote_cell(old(state), final(state), address, v, Ok::<(), Error>(())),
{
    let r = write_keeping(state, address, v);
    proof {
        reveal(wrote_cell);
    }
    r
}

/// A run of successful cell copies grows by one more.
proof fn lemma_cell_copies_push(
    start: ForthState,
    states: Seq<ForthState>,
    source: Address,
    destination: Address,
    n: nat,
    v: Bytes,
    next: ForthState,
)
    requires
        cell_copies(start, states, source, destination, n),
        source.raw() + n <= u64::MAX,
        destination.raw() + n <= u64::MAX,
        cell_read(&states.last(), byte_address(source, n as int)) == Ok::<Bytes, Error>(v),
        wrote_cell(&states.last(), &next, byte_address(destination, n as int), v, Ok::<(), Error>(())),
    ensures
        cell_copies(start, states.push(next), source, destination, n + 1),
{
    let t = states.push(next);
    assert forall|j: int| 0 <= j < n + 1 implies source.raw() + j <= u64::MAX && destination.raw() + j <= u64::MAX && (
        #[trigger] cell_read(&t[j], byte_address(source, j)) matches Ok(w) && wrote_cell(
            &t[j],
            &t[j + 1],
            byte_address(destination, j),
            w,
            Ok::<(), Error>(()),
        )) by {
        if j < n {
            assert(cell_read(&states[j], byte_address(source, j)) is Ok);
        }
    }
}

/// Pops a count, a destination and a source, and copies that many cells, one byte offset
/// at a time, from the source to the destination (`CMOVE`).
pub fn cmove(state: &mut ForthState) -> (r: ForthResult)
    requires old(state).wf(),
    ensures
        cmove_effect(old(state), final(state), r),
{
    let ghost s = state.stack@;
    let count = match state.stack.pop::<u64>() {
        Ok(c) => c,
        Err(e) => {
            return Err(e);
        },
    };
    proof {
        assert(s.skip(s.len() - 1)[0] == s.last());
    }
    let ghost s1 = state.stack@;
    let destination = match pop_address(state) {
        Ok(a) => a,
        Err(e) => {
            return Err(e);
        },
    };
    let ghost s2 = state.stack@;
    let source = match pop_address(state) {
        Ok(a) => a,
        Err(e) => {
            return Err(e);
        },
    };
    let ghost mid = *state;
    proof {
        assert(s1.last() == s[s.len() - 2]);
        assert(s2.last() == s[s.len() - 3]);
        assert(mid.stack@ =~= s.take(s.len() - 3));
        assert(popped(old(state), mid, 3));
    }
    let r = copy_cells(state, source, destination, count);
    assert(cmove_answer(mid, s, state, r));
    r
}

/// Copies `count` cells, one byte offset at a time, from `source` to `destination`, each
/// read from the machine as the writes before it left it, stopping at the first refusal.
fn copy_cells(state: &mut ForthState, source: Address, destination: Address, count: u64) -> (r: ForthResult)
    requires old(state).wf(),
    ensures
        final(state).wf(),
        final(state).keeps_non_memory(old(state)),
        final(state).input_stream == old(state).input_stream,
        exists|states: Seq<ForthState>|
            #[trigger] cell_copies(*old(state), states, source, destination, (states.len() - 1) as nat)
                && cell_copy_outcome(states, source, destination, count as nat, final(state), r),
{
    let ghost start = *state;
    let ghost mut states: Seq<ForthState> = seq![start];
    let mut i: u64 = 0;
    while i < count
        invariant
            state.wf(),
            state.keeps_non_memory(&start),
            state.input_stream == start.input_stream,
            start == *old(state),
            i <= count,
            states.len() == i + 1,
            states.last() == *state,
            cell_copies(start, states, source, destination, i as nat),
        decreases count - i,
    {
        let from = match source.checked_plus(Bytes(i)) {
            Ok(a) => a,
            Err(e) => {
                assert(cell_copy_outcome(states, source, destination, count as nat, state, Err(e)));
                assert(cell_copies(start, states, source, destination, (states.len() - 1) as nat));
                return Err(e);
            },
        };
        let to = match destination.checked_plus(Bytes(i)) {
            Ok(a) => a,
            Err(e) => {
                assert(cell_copy_outcome(states, source, destination, count as nat, state, Err(e)));
                assert(cell_copies(start, states, source, destination, (states.len() - 1) as nat));
                return Err(e);
            },
        };
        assert(from == byte_address(source, i as int));
        assert(to == byte_address(destination, i as int));
        let current = match read_cell(state, from) {
            Ok(b) => b,
            Err(e) => {
                assert(cell_copy_outcome(states, source, destination, count as nat, state, Err(e)));
                assert(cell_copies(start, states, source, destination, (states.len() - 1) as nat));
                return Err(e);
            },
        };
        let ghost before = *state;
        let w = write_cell(state, to, current);
        match w {
            Ok(()) => {},
            Err(e) => {
                assert(before == states.last());
                assert(cell_copy_outcome(states, source, destination, count as nat, state, Err(e)));
                assert(cell_copies(start, states, source, destination, (states.len() - 1) as nat));
                return Err(e);
            },
        }
        proof {
            lemma_cell_copies_push(start, states, source, destination, i as nat, current, *state);
            states = states.push(*state);
        }
        i = i + 1;
    }
    assert(cell_copy_outcome(states, source, destination, count as nat, state, Ok(())));
    assert(cell_copies(start, states, source, destination, (states.len() - 1) as nat));
    Ok(())
}

/// What `cmove_backwards` does to a machine, and what it answers.
pub open spec fn cmove_backwards_effect(old: &ForthState, new: &ForthState, r: ForthResult) -> bool {
    &&& (new.wf())
    &&& (new.unchanged_except(old, set![Field::Stack]))
    &&& (old.stack@.len() < 3 ==> r == Err::<(), Error>(Error::StackUnderflow))
    &&& (old.stack@.len() >= 3 ==> r is Ok && new.stack@ == old.stack@.take(
                old.stack@.len() - 3,
            ))
}

/// Pops a count, a destination and a source (`CMOVE>`); the copy itself runs over an empty
/// range of offsets, so nothing is copied.
pub fn cmove_backwards(state: &mut ForthState) -> (r: ForthResult)
    requires old(state).wf(),
    ensures
        cmove_backwards_effect(old(state), final(state), r),
{
    let ghost s = state.stack@;
    match state.stack.pop::<u64>() {
        Ok(_) => {},
        Err(e) => {
            return Err(e);
        },
    }
    match pop_address(state) {
        Ok(_) => {},
        Err(e) => {
            return Err(e);
        },
    }
    match pop_address(state) {
        Ok(_) => {},
        Err(e) => {
            return Err(e);
        },
    }
    proof {
        assert(s.take(s.len() - 1).drop_last().drop_last() =~= s.take(s.len() - 3));
    }
    Ok(())
}

/// What `move_noclobber` does to a machine, and what it answers.
pub open spec fn move_noclobber_effect(old: &ForthState, new: &ForthState, r: ForthResult) -> bool {
    &&& (new.wf())
    &&& (new.keeps_non_memory(old))
    &&& (new.input_stream == old.input_stream)
    &&& (old.stack@.len() < 3 ==> r == Err::<(), Error>(Error::StackUnderflow))
    &&& (old.stack@.len() >= 3 ==> exists|mid: ForthState|
        #[trigger] popped(old, mid, 3) && move_answer(mid, old.stack@, new, r))
}

/// Pops a count, a destination and a source, reads that many bytes from the source and
/// then writes them to the destination (`MOVE`).
pub fn move_noclobber(state: &mut ForthState) -> (r: ForthResult)
    requires old(state).wf(),
    ensures
        move_noclobber_effect(old(state), final(state), r),
{
    let ghost s = state.stack@;
    let count = match state.stack.pop::<u64>() {
        Ok(c) => c,
        Err(e) => {
            return Err(e);
        },
    };
    proof {
        assert(s.skip(s.len() - 1)[0] == s.last());
    }
    let ghost s1 = state.stack@;
    let destination = match pop_address(state) {
        Ok(a) => a,
        Err(e) => {
            return Err(e);
        },
    };
    let ghost s2 = state.stack@;
    let source = match pop_address(state) {
        Ok(a) => a,
        Err(e) => {
            return Err(e);
        },
    };
    let ghost mid = *state;
    proof {
        assert(s1.last() == s[s.len() - 2]);
        assert(s2.last() == s[s.len() - 3]);
        assert(mid.stack@ =~= s.take(s.len() - 3));
        assert(popped(old(state), mid, 3));
    }
    let bytes = match read_bytes(state, source, count) {
        Ok(b) => b,
        Err(e) => {
            assert(move_answer(mid, s, state, Err(e)));
            return Err(e);
        },
    };
    let r = write_bytes(state, destination, &bytes);
    assert(move_answer(mid, s, state, r));
    r
}

/// Writes `bytes` one after the other from `destination` on, stopping at the first write
/// that is refused.
fn write_bytes(state: &mut ForthState, destination: Address, bytes: &Vec<u8>) -> (r: ForthResult)
    requires old(state).wf(),
    ensures
        final(state).wf(),
        final(state).keeps_non_memory(old(state)),
        final(state).input_stream == old(state).input_stream,
        exists|states: Seq<ForthState>|
            #[trigger] byte_writes(*old(state), states, destination, bytes@.take(states.len() - 1)) && copy_outcome(
                states,
                destination,
                bytes@,
                final(state),
                r,
            ),
{
    let ghost start = *state;
    let ghost all = bytes@;
    let ghost mut states: Seq<ForthState> = seq![start];
    let mut j: usize = 0;
    proof {
        assert(all.take(0) =~= Seq::<u8>::empty());
    }
    while j < bytes.len()
        invariant
            state.wf(),
            state.keeps_non_memory(&start),
            state.input_stream == start.input_stream,
            start == *old(state),
            bytes@ == all,
            j <= all.len(),
            states.len() == j + 1,
            states.last() == *state,
            byte_writes(start, states, destination, all.take(j as int)),
        decreases bytes@.len() - j,
    {
        let to = match destination.checked_plus(Bytes(j as u64)) {
            Ok(a) => a,
            Err(e) => {
                proof {
                    assert(copy_outcome(states, destination, all, state, Err(e)));
                    assert(byte_writes(start, states, destination, all.take(states.len() - 1)));
                }
                return Err(e);
            },
        };
        assert(to == byte_address(destination, j as int));
        let w = write_byte(state, to, bytes[j]);
        match w {
            Ok(()) => {},
            Err(e) => {
                proof {
                    assert(copy_outcome(states, destination, all, state, Err(e)));
                    assert(byte_writes(start, states, destination, all.take(states.len() - 1)));
                }
                return Err(e);
            },
        }
        proof {
            lemma_byte_writes_push(start, states, destination, all, j as int, *state);
            states = states.push(*state);
        }
        j = j + 1;
    }
    proof {
        assert(all.take(j as int) =~= all);
        assert(copy_outcome(states, destination, all, state, Ok(())));
        assert(byte_writes(start, states, destination, all.take(states.len() - 1)));
    }
    Ok(())
}

/// The `count` bytes stored from `address` on.
pub fn read_bytes(state: &ForthState, address: Address, count: u64) -> (r: Result<Vec<u8>, Error>)
    requires state.wf(),
    ensures
        r matches Ok(v) ==> v@.len() == count && forall|i: int|
            0 <= i < count ==> state.spec_read_as::<u8>(Address::spec_from_raw(address.raw() + i))
                == Ok::<u8, Error>(#[trigger] v@[i]),
        r is Ok <==> all_bytes_readable(state, address, count as int),
        r matches Ok(v) ==> v@ == bytes_at(state, address, count as nat),
{
    let mut bytes: Vec<u8> = Vec::new();
    let mut i: u64 = 0;
    while i < count
        invariant
            state.wf(),
            bytes@.len() == i,
            i <= count,
            forall|k: int|
                0 <= k < i ==> state.spec_read_as::<u8>(Address::spec_from_raw(address.raw() + k))
                    == Ok::<u8, Error>(#[trigger] bytes@[k]),
            all_bytes_readable(state, address, i as int),
            bytes@ == bytes_at(state, address, i as nat),
        decreases count - i,
    {
        let from = match address.checked_plus(Bytes(i)) {
            Ok(a) => a,
            Err(e) => {
                assert(byte_at(state, address, i as int) is Err);
                return Err(e);
            },
        };
        let b = match state.read::<u8>(from) {
            Ok(b) => b,
            Err(e) => {
                assert(byte_at(state, address, i as int) is Err);
                return Err(e);
            },
        };
        bytes.push(b);
        i = i + 1;
        assert(bytes@ =~= bytes_at(state, address, i as nat));
    }
    Ok(bytes)
}

/// The `count` bytes at `address` as `state` reads them (0 for one that cannot be read).
pub open spec fn bytes_at(state: &ForthState, address: Address, count: nat) -> Seq<u8> {
    Seq::new(
        count,
        |i: int|
            match byte_at(state, address, i) {
                Ok(b) => b,
                Err(_) => 0u8,
            },
    )
}

/// The address `j` bytes past `address`.
pub open spec fn byte_address(address: Address, j: int) -> Address {
    Address(Bytes((address.raw() + j) as u64))
}

/// Whether `after` is `before` once the byte `b` was written at `address`, with the answer `r`.
#[verifier::opaque]
pub open spec fn wrote_byte(before: &ForthState, after: &ForthState, address: Address, b: u8, r: ForthResult) -> bool {
    ForthState::spec_write_effect(before, after, address, b, r)
}

/// Writes the byte `b` at `address`, keeping all but memory.
fn write_byte(state: &mut ForthState, address: Address, b: u8) -> (r: ForthResult)
    requires old(state).wf(),
    ensures
        final(state).wf(),
        final(state).keeps_non_memory(old(state)),
        final(state).input_stream == old(state).input_stream,
        wrote_byte(old(state), final(state), address, b, r),
        r is Err ==> *final(state) == *old(state),
        r is Ok ==> wrote_byte(old(state), final(state), address, b, Ok::<(), Error>(())),
{
    let r = write_keeping(state, address, b);
    proof {
        reveal(wrote_byte);
    }
    r
}

/// A run of successful byte writes grows by one more.
proof fn lemma_byte_writes_push(
    start: ForthState,
    states: Seq<ForthState>,
    destination: Address,
    all: Seq<u8>,
    j: int,
    next: ForthState,
)
    requires
        0 <= j < all.len(),
        byte_writes(start, states, destination, all.take(j)),
        destination.raw() + j <= u64::MAX,
        wrote_byte(&states.last(), &next, byte_address(destination, j), all[j], Ok::<(), Error>(())),
    ensures
        byte_writes(start, states.push(next), destination, all.take(j + 1)),
{
    let n = states.push(next);
    assert forall|i: int| 0 <= i < j + 1 implies destination.raw() + i <= u64::MAX && #[trigger] wrote_byte(
        &n[i],
        &n[i + 1],
        byte_address(destination, i),
        all.take(j + 1)[i],
        Ok::<(), Error>(()),
    ) by {
        if i < j {
            assert(wrote_byte(&states[i], &states[i + 1], byte_address(destination, i), all.take(j)[i], Ok::<(), Error>(())));
        }
    }
}

/// Whether `states` runs from `start` through writes of `bytes[j]` at `j` places past
/// `destination`, one after the other, each of them succeeding.
pub open spec fn byte_writes(start: ForthState, states: Seq<ForthState>, destination: Address, bytes: Seq<u8>) -> bool {
    &&& states.len() == bytes.len() + 1
    &&& states[0] == start
    &&& forall|j: int|
        0 <= j < bytes.len() ==> destination.raw() + j <= u64::MAX && #[trigger] wrote_byte(
            &states[j],
            &states[j + 1],
            byte_address(destination, j),
            bytes[j],
            Ok::<(), Error>(()),
        )
}

/// How a run of byte writes through `states` ends: all of `bytes` written and success, or
/// the next write refused (past the end of the address space, or by the machine) and the
/// machine left as the last write left it.
pub open spec fn copy_outcome(states: Seq<ForthState>, destination: Address, bytes: Seq<u8>, new: &ForthState, r: ForthResult) -> bool {
    let k = states.len() - 1;
    &&& *new == states.last()
    &&& 0 <= k <= bytes.len()
    &&& (k == bytes.len() ==> r == Ok::<(), Error>(()))
    &&& (k < bytes.len() ==> r is Err && (destination.raw() + k > u64::MAX ==> r == Err::<(), Error>(
        Error::InvalidAddress,
    )) && (destination.raw() + k <= u64::MAX ==> wrote_byte(&states.last(), new, byte_address(destination, k), bytes[k], r)))
}

/// What `move_noclobber` answers, and the machine it leaves, where `mid` is the machine
/// once the operands are popped and `s` the stack it started with.
pub open spec fn move_answer(mid: ForthState, s: Seq<Value>, new: &ForthState, r: ForthResult) -> bool {
    let count = s.last().spec_to_number() as u64;
    let destination = address_of(s[s.len() - 2]);
    let source = address_of(s[s.len() - 3]);
    let bytes = bytes_at(&mid, source, count as nat);
    &&& (!all_bytes_readable(&mid, source, count as int) ==> r is Err && *new == mid)
    &&& (all_bytes_readable(&mid, source, count as int) ==> exists|states: Seq<ForthState>|
        #[trigger] byte_writes(mid, states, destination, bytes.take(states.len() - 1)) && copy_outcome(
            states,
            destination,
            bytes,
            new,
            r,
        ))
}

/// Whether `taken` is `before` with the next input character taken and nothing else changed.
pub open spec fn took_char(before: ForthState, taken: ForthState) -> bool {
    &&& before.input_stream.spec_rest().len() > 0
    &&& taken.unchanged_except(&before, set![Field::Input])
    &&& taken.input_stream.spec_rest() == before.input_stream.spec_rest().skip(1)
}

/// Whether `after` is `before` once the next input character, which is no line break, was
/// taken and its byte written `j` bytes past `address`.
pub open spec fn accepted_char(before: ForthState, after: ForthState, address: Address, j: int) -> bool {
    &&& before.input_stream.spec_rest().len() > 0
    &&& before.input_stream.spec_rest()[0] != '\n'
    &&& address.raw() + j <= u64::MAX
    &&& exists|taken: ForthState|
        #[trigger] took_char(before, taken) && wrote_byte(
            &taken,
            &after,
            byte_address(address, j),
            byte_of_char(before.input_stream.spec_rest()[0]),
            Ok::<(), Error>(()),
        )
}

/// Whether `states` runs from `start` through `n` characters accepted one after the other.
pub open spec fn accept_chain(start: ForthState, states: Seq<ForthState>, address: Address, n: nat) -> bool {
    &&& states.len() == n + 1
    &&& states[0] == start
    &&& forall|j: int| 0 <= j < n ==> #[trigger] accepted_char(states[j], states[j + 1], address, j)
}

/// How accepting up to `count` characters through `states` ends: `count` of them taken; or
/// a line break taken next; or no input left; or the next character taken and its write
/// refused, the machine left as that write found it.
pub open spec fn accept_outcome(states: Seq<ForthState>, address: Address, count: nat, new: ForthState, r: ForthResult) -> bool {
    let k = states.len() - 1;
    let last = states.last();
    let rest = last.input_stream.spec_rest();
    &&& 0 <= k <= count
    &&& (k == count ==> r == Ok::<(), Error>(()) && new == last)
    &&& (k < count ==> if rest.len() == 0 {
        r == Err::<(), Error>(Error::NoMoreTokens) && new == last
    } else if rest[0] == '\n' {
        r == Ok::<(), Error>(()) && took_char(last, new)
    } else if address.raw() + k > u64::MAX {
        r == Err::<(), Error>(Error::InvalidAddress) && took_char(last, new)
    } else {
        r is Err && took_char(last, new) && wrote_byte(&new, &new, byte_address(address, k), byte_of_char(rest[0]), r)
    })
}

/// What `accept` does to a machine, and what it answers.
pub open spec fn accept_effect(old: &ForthState, new: &ForthState, r: ForthResult) -> bool {
    &&& (new.wf())
    &&& (new.keeps_non_memory(old))
    &&& (old.stack@.len() < 2 ==> r == Err::<(), Error>(Error::StackUnderflow))
    &&& (old.stack@.len() >= 2 ==> exists|mid: ForthState|
        #[trigger] popped(old, mid, 2) && accept_answer(mid, old.stack@, *new, r))
}

/// What `accept` answers, and the machine it leaves, where `mid` is the machine once the
/// operands are popped and `s` the stack it started with.
pub open spec fn accept_answer(mid: ForthState, s: Seq<Value>, new: ForthState, r: ForthResult) -> bool {
    let count = s.last().spec_to_number() as u64;
    let address = address_of(s[s.len() - 2]);
    exists|states: Seq<ForthState>|
        #[trigger] accept_chain(mid, states, address, (states.len() - 1) as nat) && accept_outcome(
            states,
            address,
            count as nat,
            new,
            r,
        )
}

/// Pops a count and an address, and stores up to that many input characters there,
/// stopping at a line break (`ACCEPT`).
pub fn accept(state: &mut ForthState) -> (r: ForthResult)
    requires old(state).wf(),
    ensures
        accept_effect(old(state), final(state), r),
{
    let ghost s = state.stack@;
    let count = match state.stack.pop::<u64>() {
        Ok(c) => c,
        Err(e) => {
            return Err(e);
        },
    };
    proof {
        assert(s.skip(s.len() - 1)[0] == s.last());
    }
    let ghost s1 = state.stack@;
    let address = match pop_address(state) {
        Ok(a) => a,
        Err(e) => {
            return Err(e);
        },
    };
    let ghost mid = *state;
    proof {
        assert(s1.last() == s[s.len() - 2]);
        assert(mid.stack@ =~= s.take(s.len() - 2));
        assert(popped(old(state), mid, 2));
    }
    let r = accept_chars(state, address, count);
    assert(accept_answer(mid, s, *state, r));
    r
}

/// Takes input characters and stores their bytes from `address` on, up to `count` of them,
/// stopping after a line break, at the end of the input or at a refused write.
fn accept_chars(state: &mut ForthState, address: Address, count: u64) -> (r: ForthResult)
    requires old(state).wf(),
    ensures
        final(state).wf(),
        final(state).keeps_non_memory(old(state)),
        exists|states: Seq<ForthState>|
            #[trigger] accept_chain(*old(state), states, address, (states.len() - 1) as nat) && accept_outcome(
                states,
                address,
                count as nat,
                *final(state),
                r,
            ),
{
    let ghost start = *state;
    let ghost mut states: Seq<ForthState> = seq![start];
    let mut copied: u64 = 0;
    while copied < count
        invariant
            state.wf(),
            state.keeps_non_memory(&start),
            start == *old(state),
            copied <= count,
            states.len() == copied + 1,
            states.last() == *state,
            accept_chain(start, states, address, copied as nat),
        decreases count - copied,
    {
        let ghost before = *state;
        let c = match state.input_stream.next_char() {
            Ok(c) => c,
            Err(e) => {
                assert(accept_outcome(states, address, count as nat, *state, Err(e)));
                assert(accept_chain(start, states, address, (states.len() - 1) as nat));
                return Err(e);
            },
        };
        let ghost taken = *state;
        assert(took_char(before, taken));
        if c == '\n' {
            assert(accept_outcome(states, address, count as nat, *state, Ok(())));
            assert(accept_chain(start, states, address, (states.len() - 1) as nat));
            return Ok(());
        }
        let to = match address.checked_plus(Bytes(copied)) {
            Ok(a) => a,
            Err(e) => {
                assert(accept_outcome(states, address, count as nat, *state, Err(e)));
                assert(accept_chain(start, states, address, (states.len() - 1) as nat));
                return Err(e);
            },
        };
        assert(to == byte_address(address, copied as int));
        let b = char_byte(c);
        let w = write_byte(state, to, b);
        match w {
            Ok(()) => {},
            Err(e) => {
                assert(*state == taken);
                assert(took_char(states.last(), *state));
                assert(b == byte_of_char(states.last().input_stream.spec_rest()[0]));
                assert(wrote_byte(state, state, byte_address(address, copied as int), b, w));
                assert(accept_outcome(states, address, count as nat, *state, Err(e)));
                assert(accept_chain(start, states, address, (states.len() - 1) as nat));
                return Err(e);
            },
        }
        proof {
            assert(accepted_char(before, *state, address, copied as int));
            let next = states.push(*state);
            assert forall|j: int| 0 <= j < copied + 1 implies #[trigger] accepted_char(next[j], next[j + 1], address, j) by {
                if j < copied {
                    assert(accepted_char(states[j], states[j + 1], address, j));
                }
            }
            states = next;
        }
        copied = copied + 1;
    }
    assert(accept_outcome(states, address, count as nat, *state, Ok(())));
    assert(accept_chain(start, states, address, (states.len() - 1) as nat));
    Ok(())
}

/// What `count` does to a machine, and what it answers.
pub open spec fn count_effect(old: &ForthState, new: &ForthState, r: ForthResult) -> bool {
    &&& (new.wf())
    &&& (new.unchanged_except(old, set![Field::Stack]))
    &&& (old.stack@.len() == 0 ==> r == Err::<(), Error>(Error::StackUnderflow))
    &&& (old.stack@.len() > 0 ==> exists|mid: ForthState|
        #[trigger] popped(old, mid, 1) && count_answer(&mid, old.stack@, new, r))
}

/// What `count` answers, and the stack it leaves, where the length byte is read from `mid`
/// and `s` is the stack it started with.
pub open spec fn count_answer(mid: &ForthState, s: Seq<Value>, new: &ForthState, r: ForthResult) -> bool {
    let address = address_of(s.last());
    match byte_at(mid, address, 0) {
        Err(e) => r == Err::<(), Error>(e),
        Ok(length) => if address.raw() + 1 > u64::MAX {
            r == Err::<(), Error>(Error::InvalidAddress)
        } else {
            &&& r is Ok
            &&& new.stack@ == s.drop_last().push(Value::Number((address.raw() + 1) as u64 as i64)) + length.spec_stack_cells()
        },
    }
}

/// Replaces the address of a counted string by the address of its characters and its
/// length (`COUNT`).
pub fn count(state: &mut ForthState) -> (r: ForthResult)
    requires old(state).wf(),
    ensures
        count_effect(old(state), final(state), r),
{
    let ghost s = state.stack@;
    let address = match pop_address(state) {
        Ok(a) => a,
        Err(e) => {
            return Err(e);
        },
    };
    let ghost mid = *state;
    proof {
        assert(mid.stack@ =~= s.take(s.len() - 1));
        assert(popped(old(state), mid, 1));
        assert(address.raw() + 0 <= u64::MAX);
        assert(Address(Bytes((address.raw() + 0) as u64)) == address);
    }
    let length = match state.read::<u8>(address) {
        Ok(l) => l,
        Err(e) => {
            assert(count_answer(&mid, s, state, Err(e)));
            return Err(e);
        },
    };
    let next = match address.checked_plus(Bytes(1)) {
        Ok(a) => a,
        Err(e) => {
            assert(count_answer(&mid, s, state, Err(e)));
            return Err(e);
        },
    };
    state.stack.push(next);
    state.stack.push(length);
    proof {
        assert(state.stack@ =~= s.drop_last().push(Value::Number((address.raw() + 1) as u64 as i64))
            + length.spec_stack_cells());
        assert(count_answer(&mid, s, state, Ok(())));
    }
    Ok(())
}

/// The words of this module: each name, whether it is immediate, and its operation.
pub open spec fn operation_table() -> Seq<(&'static str, bool, Operation)> {
    seq![
        ("CHAR", false, Operation::GetChar),
        ("KEY", false, Operation::GetChar),
        ("WORD", false, Operation::GetWord),
        ("-TRAILING", false, Operation::Trailing),
        ("CMOVE", false, Operation::CMove),
        ("CMOVE>", false, Operation::CMoveBackwards),
        ("MOVE", false, Operation::MoveNoClobber),
        ("ACCEPT", false, Operation::Accept),
        ("COUNT", false, Operation::Count),
    ]
}

/// The string words with their names.
pub fn get_operations() -> (r: Vec<(&'static str, bool, Operation)>)
    ensures r@ == operation_table(),
{
    let mut v: Vec<(&'static str, bool, Operation)> = Vec::new();
    v.push(("CHAR", false, Operation::GetChar));
    v.push(("KEY", false, Operation::GetChar));
    v.push(("WORD", false, Operation::GetWord));
    v.push(("-TRAILING", false, Operation::Trailing));
    v.push(("CMOVE", false, Operation::CMove));
    v.push(("CMOVE>", false, Operation::CMoveBackwards));
    v.push(("MOVE", false, Operation::MoveNoClobber));
    v.push(("ACCEPT", false, Operation::Accept));
    v.push(("COUNT", false, Operation::Count));
    assert(v@ =~= operation_table());
    v
}

} // verus!
