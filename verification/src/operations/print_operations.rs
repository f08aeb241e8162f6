use vstd::prelude::*;
use crate::operations::string_operations::split_at_delimiter;
use crate::environment::memory::Address;
use crate::environment::units::{Bytes, CELL_SIZE};
use crate::environment::value::{Value, ValueVariant};
use crate::evaluate::definition::ExecutionToken;
use crate::evaluate::execution::Field;
use crate::evaluate::{Error, ForthResult, ForthState};
use crate::io::format::{decimal_string, push_decimal, push_decimal_digits, string_push};
use crate::io::output_stream::OutputStream;
use crate::operations::control_flow_operations::{char_of_byte, op_cell, postpone_operation, read_chars, text_of_bytes};
use crate::operations::string_operations::{all_bytes_readable, popped};
use crate::io::tokens::string_of;
use crate::operations::memory_operations::{address_of, pop_address};
use crate::operations::string_operations::read_string_to_memory;
use crate::operations::{NumberFormat, Operation};

use crate::io::output_stream::kept_output;

verus! {

/// How many cells a number printed in `format` takes.
pub open spec fn format_size(format: NumberFormat) -> nat {
    match format {
        NumberFormat::DoubleNumber => 2,
        _ => 1,
    }
}

/// The value a number printed in `format` has, given its cells (deepest first).
pub open spec fn printed_value(format: NumberFormat, cells: Seq<Value>) -> int {
    match format {
        NumberFormat::Number => cells[0].spec_to_number() as int,
        NumberFormat::DoubleNumber => i128::spec_from_stack(cells).unwrap() as int,
        NumberFormat::Byte => i8::spec_from_stack(cells).unwrap() as int,
        NumberFormat::UnsignedNumber => (cells[0].spec_to_number() as u64) as int,
    }
}

/// What `pop_and_print` does to a machine, and what it answers.
pub open spec fn pop_and_print_effect(old: &ForthState, new: &ForthState, format: NumberFormat, r: ForthResult) -> bool {
    &&& (new.wf())
    &&& (kept_output(&old.output_stream, &new.output_stream))
    &&& (new.unchanged_except(old, set![Field::Stack, Field::Output]))
    &&& (({
                let s = old.stack@;
                let n = format_size(format);
                if s.len() < n {
                    r == Err::<(), Error>(Error::StackUnderflow) && new.output_stream == old.output_stream
                } else {
                    &&& r is Ok
                    &&& new.stack@ =~= s.take(s.len() - n)
                    &&& new.output_stream.spec_keeps() == old.output_stream.spec_keeps()
                    &&& new.output_stream.spec_pending() =~= if old.output_stream.spec_keeps() {
                        old.output_stream.spec_pending() + decimal_string(printed_value(format, s.skip(s.len() - n)))
                            + seq![' ']
                    } else {
                        old.output_stream.spec_pending()
                    }
                }
            }))
}

/// Pops a number and prints it in decimal followed by a space (`.`, `D.`, `C.`, `U.`).
pub fn pop_and_print(state: &mut ForthState, format: NumberFormat) -> (r: ForthResult)
    requires old(state).wf(),
    ensures
        pop_and_print_effect(old(state), final(state), format, r),
{
    let ghost s = state.stack@;
    let mut text = String::new();
    match format {
        NumberFormat::Number => match state.stack.pop::<i64>() {
            Ok(n) => push_decimal(&mut text, n as i128),
            Err(e) => {
                return Err(e);
            },
        },
        NumberFormat::DoubleNumber => match state.stack.pop::<i128>() {
            Ok(n) => push_decimal(&mut text, n),
            Err(e) => {
                return Err(e);
            },
        },
        NumberFormat::Byte => match state.stack.pop::<i8>() {
            Ok(n) => push_decimal(&mut text, n as i128),
            Err(e) => {
                return Err(e);
            },
        },
        NumberFormat::UnsignedNumber => match state.stack.pop::<u64>() {
            Ok(n) => push_decimal(&mut text, n as i128),
            Err(e) => {
                return Err(e);
            },
        },
    }
    string_push(&mut text, ' ');
    state.output_stream.write(text.as_str());
    Ok(())
}

/// What `print_newline` does to a machine, and what it answers.
pub open spec fn print_newline_effect(old: &ForthState, new: &ForthState, r: ForthResult) -> bool {
    &&& (r is Ok)
    &&& (new.wf())
    &&& (new.unchanged_except(old, set![Field::Output]))
    &&& (new.output_stream.spec_keeps() == old.output_stream.spec_keeps())
    &&& (new.output_stream.spec_pending() == if old.output_stream.spec_keeps() {
                old.output_stream.spec_pending() + seq!['\n']
            } else {
                old.output_stream.spec_pending()
            })
}

/// Prints a line break (`CR`).
pub fn print_newline(state: &mut ForthState) -> (r: ForthResult)
    requires old(state).wf(),
    ensures
        print_newline_effect(old(state), final(state), r),
{
    state.output_stream.writeln("");
    proof {
        reveal_strlit("");
        assert(old(state).output_stream.spec_pending() + ""@ + seq!['\n'] =~= old(state).output_stream.spec_pending()
            + seq!['\n']);
    }
    Ok(())
}

/// Writes one character to the output.
pub fn write_char(state: &mut ForthState, c: char)
    requires old(state).wf(),
    ensures
        final(state).wf(),
        final(state).unchanged_except(old(state), set![Field::Output]),
        final(state).output_stream.spec_keeps() == old(state).output_stream.spec_keeps(),
        final(state).output_stream.spec_pending() == if old(state).output_stream.spec_keeps() {
            old(state).output_stream.spec_pending().push(c)
        } else {
            old(state).output_stream.spec_pending()
        },
{
    let mut text = String::new();
    string_push(&mut text, c);
    state.output_stream.write(text.as_str());
    proof {
        assert(old(state).output_stream.spec_pending() + seq![c] =~= old(state).output_stream.spec_pending().push(c));
    }
}

/// What `print_string` does to a machine, and what it answers.
pub open spec fn print_string_effect(old: &ForthState, new: &ForthState, r: ForthResult) -> bool {
    &&& (new.wf())
    &&& (kept_output(&old.output_stream, &new.output_stream))
    &&& (new.keeps_non_memory(old))
    &&& (!old.data_room(2) ==> r == Err::<(), Error>(Error::InsufficientMemory) && *new == *old)
    &&& (r is Ok ==> (split_at_delimiter(old.input_stream.spec_rest(), '"') matches Some((text, after))
                && new.input_stream.spec_rest() == after))
    &&& (split_at_delimiter(old.input_stream.spec_rest(), '"') is None ==> r is Err)
}

/// Compiles printing the string that follows, up to a `"` (`."`).
pub fn print_string(state: &mut ForthState) -> (r: ForthResult)
    requires old(state).wf(),
    ensures
        print_string_effect(old(state), final(state), r),
{
    match postpone_operation(state, Operation::PrintStringRuntime) {
        Ok(()) => {},
        Err(e) => {
            return Err(e);
        },
    }
    read_string_to_memory(state, '"')
}

/// What `print_string_runtime` does to a machine, and what it answers.
pub open spec fn print_string_runtime_effect(old: &ForthState, new: &ForthState, r: ForthResult) -> bool {
    &&& (new.wf())
    &&& (kept_output(&old.output_stream, &new.output_stream))
    &&& (new.unchanged_except(old, set![Field::Output, Field::Pointer]))
    &&& (old.instruction_pointer is None ==> r == Err::<(), Error>(Error::InvalidAddress))
    &&& (old.instruction_pointer matches Some(start) ==> match old.spec_read_as::<u8>(start) {
        Err(e) => r == Err::<(), Error>(e) && new.output_stream == old.output_stream,
        Ok(length) => if start.raw() == u64::MAX {
            r == Err::<(), Error>(Error::InvalidAddress) && new.output_stream == old.output_stream
        } else {
            let text = Address(Bytes((start.raw() + 1) as u64));
            &&& (!all_bytes_readable(old, text, length as int) ==> r is Err && new.output_stream == old.output_stream)
            &&& (all_bytes_readable(old, text, length as int) ==> printed_bytes(
                &old.output_stream,
                &new.output_stream,
                old,
                text,
                length as int,
            ))
        },
    })
}

/// The run-time part of `."`: prints the counted string at the instruction pointer and
/// continues after it, at the next cell boundary after its last byte.
pub fn print_string_runtime(state: &mut ForthState) -> (r: ForthResult)
    requires old(state).wf(),
    ensures
        print_string_runtime_effect(old(state), final(state), r),
{
    let start = match state.instruction_pointer() {
        Some(a) => a,
        None => {
            return Err(Error::InvalidAddress);
        },
    };
    let length = match state.read::<u8>(start) {
        Ok(l) => l,
        Err(e) => {
            return Err(e);
        },
    };
    if start.0.0 == u64::MAX {
        return Err(Error::InvalidAddress);
    }
    let chars = match read_chars(state, start.plus(Bytes(1)), length as u64) {
        Ok(c) => c,
        Err(e) => {
            return Err(e);
        },
    };
    let text = string_of(&chars);
    state.output_stream.write(text.as_str());
    proof {
        let before = old(state).output_stream.spec_pending();
        if old(state).output_stream.spec_keeps() {
            assert(state.output_stream.spec_pending().take(before.len() as int) =~= before);
            assert(state.output_stream.spec_pending().skip(before.len() as int) =~= chars@);
        }
    }
    if start.0.0 > u64::MAX - (length as u64) {
        return Err(Error::InvalidAddress);
    }
    let address = start.plus(Bytes(length as u64));
    if address.0.0 > u64::MAX - (CELL_SIZE - 1) {
        return Err(Error::InvalidAddress);
    }
    state.jump_to(address.nearest_cell())
}

/// Whether `after` is the output `before` with the characters of the `count` bytes at
/// `address` of `state` written after it (where the stream keeps its output).
pub open spec fn printed_bytes<O: OutputStream>(before: &O, after: &O, state: &ForthState, address: Address, count: int) -> bool {
    &&& after.spec_keeps() == before.spec_keeps()
    &&& (before.spec_keeps() ==> {
        &&& after.spec_pending().len() == before.spec_pending().len() + count
        &&& after.spec_pending().take(before.spec_pending().len() as int) == before.spec_pending()
        &&& text_of_bytes(state, address, count, after.spec_pending().skip(before.spec_pending().len() as int))
    })
    &&& (!before.spec_keeps() ==> after.spec_pending() == before.spec_pending())
}

/// What `type_string` answers, and the stack and output it leaves, where the bytes are read
/// from `mid` and the machine started as `old`.
pub open spec fn type_answer(mid: &ForthState, old: &ForthState, new: &ForthState, r: ForthResult) -> bool {
    let s = old.stack@;
    let count = s.last().spec_to_number() as u64;
    let address = address_of(s[s.len() - 2]);
    &&& (r is Ok <==> all_bytes_readable(mid, address, count as int))
    &&& (r is Ok ==> new.stack@ == s.take(s.len() - 2) && printed_bytes(
        &old.output_stream,
        &new.output_stream,
        mid,
        address,
        count as int,
    ))
    &&& (r is Err ==> new.output_stream == old.output_stream)
}

/// What `type_string` does to a machine, and what it answers: the bytes are read once the
/// count and the address are off the stack.
pub open spec fn type_string_effect(old: &ForthState, new: &ForthState, r: ForthResult) -> bool {
    &&& (new.wf())
    &&& (kept_output(&old.output_stream, &new.output_stream))
    &&& (new.unchanged_except(old, set![Field::Stack, Field::Output]))
    &&& (old.stack@.len() < 2 ==> r == Err::<(), Error>(Error::StackUnderflow))
    &&& (old.stack@.len() >= 2 ==> exists|mid: ForthState| #[trigger] popped(old, mid, 2) && type_answer(&mid, old, new, r))
}

/// Pops a count and an address and prints that many bytes from there as characters
/// (`TYPE`).
pub fn type_string(state: &mut ForthState) -> (r: ForthResult)
    requires old(state).wf(),
    ensures
        type_string_effect(old(state), final(state), r),
{
    let ghost s = state.stack@;
    let count = match state.stack.pop::<u64>() {
        Ok(c) => c,
        Err(e) => {
            return Err(e);
        },
    };
    proof {
        assert(s.skip(s.len() - 1)[0] == s.last());
    }
    let ghost s1 = state.stack@;
    let address = match pop_address(state) {
        Ok(a) => a,
        Err(e) => {
            return Err(e);
        },
    };
    let ghost mid = *state;
    proof {
        assert(s1.last() == s[s.len() - 2]);
        assert(mid.stack@ =~= s.take(s.len() - 2));
        assert(popped(old(state), mid, 2));
    }
    let chars = match read_chars(state, address, count) {
        Ok(c) => c,
        Err(e) => {
            assert(type_answer(&mid, old(state), state, Err(e)));
            return Err(e);
        },
    };
    let text = string_of(&chars);
    state.output_stream.write(text.as_str());
    proof {
        let before = old(state).output_stream.spec_pending();
        if old(state).output_stream.spec_keeps() {
            assert(state.output_stream.spec_pending().take(before.len() as int) =~= before);
            assert(state.output_stream.spec_pending().skip(before.len() as int) =~= chars@);
        }
        assert(type_answer(&mid, old(state), state, Ok(())));
    }
    Ok(())
}

/// What `emit` does to a machine, and what it answers.
pub open spec fn emit_effect(old: &ForthState, new: &ForthState, r: ForthResult) -> bool {
    &&& (new.wf())
    &&& (kept_output(&old.output_stream, &new.output_stream))
    &&& (new.unchanged_except(old, set![Field::Stack, Field::Output]))
    &&& (old.stack@.len() == 0 ==> r == Err::<(), Error>(Error::StackUnderflow))
    &&& (old.stack@.len() > 0 ==> r is Ok && new.stack@ == old.stack@.drop_last())
    &&& (old.stack@.len() > 0 && old.output_stream.spec_keeps() ==> {
        let before = old.output_stream.spec_pending();
        let after = new.output_stream.spec_pending();
        &&& after.len() == before.len() + 1
        &&& after.take(before.len() as int) == before
        &&& after.last() as int == low_byte(old.stack@.last().spec_to_number())
    })
    &&& (!old.output_stream.spec_keeps() ==> new.output_stream.spec_pending() == old.output_stream.spec_pending())
}

/// The lowest byte of the number `n`, as a code from 0 to 255.
pub open spec fn low_byte(n: i64) -> int {
    (n as u64) as int % 256
}

/// Pops a character code and prints the character (`EMIT`).
pub fn emit(state: &mut ForthState) -> (r: ForthResult)
    requires old(state).wf(),
    ensures
        emit_effect(old(state), final(state), r),
{
    let ghost s = state.stack@;
    let c = match state.stack.pop::<u8>() {
        Ok(c) => c,
        Err(e) => {
            return Err(e);
        },
    };
    proof {
        assert(s.take(s.len() - 1) =~= s.drop_last());
        reveal_with_fuel(crate::environment::generic_numbers::byte_weight, 1);
        assert(s.skip(s.len() - 1)[0] == s.last());
        let n = s.last().spec_to_number();
        let v = (n as u64) as int % 256;
        assert((n as u64) as int / 1 == (n as u64) as int);
        let w = v as u8;
        assert(w as int == v);
        assert((w as i8) as u8 == w) by (bit_vector);
        assert(c == (w as i8) as u8);
        assert(c as int == low_byte(n));
    }
    let ghost before = state.output_stream.spec_pending();
    write_char(state, char_of_byte(c));
    proof {
        if state.output_stream.spec_keeps() {
            assert(state.output_stream.spec_pending().take(before.len() as int) =~= before);
        }
    }
    Ok(())
}

/// The words of this module: each name, whether it is immediate, and its operation.
pub open spec fn operation_table() -> Seq<(&'static str, bool, Operation)> {
    seq![
        (".", false, Operation::PopAndPrint(NumberFormat::Number)),
        ("D.", false, Operation::PopAndPrint(NumberFormat::DoubleNumber)),
        ("C.", false, Operation::PopAndPrint(NumberFormat::Byte)),
        ("U.", false, Operation::PopAndPrint(NumberFormat::UnsignedNumber)),
        (".\"", true, Operation::PrintString),
        ("CR", false, Operation::PrintNewline),
        ("TYPE", false, Operation::TypeString),
        ("EMIT", false, Operation::Emit),
    ]
}

/// The printing words with their names.
pub fn get_operations() -> (r: Vec<(&'static str, bool, Operation)>)
    ensures r@ == operation_table(),
{
    let mut v: Vec<(&'static str, bool, Operation)> = Vec::new();
    v.push((".", false, Operation::PopAndPrint(NumberFormat::Number)));
    v.push(("D.", false, Operation::PopAndPrint(NumberFormat::DoubleNumber)));
    v.push(("C.", false, Operation::PopAndPrint(NumberFormat::Byte)));
    v.push(("U.", false, Operation::PopAndPrint(NumberFormat::UnsignedNumber)));
    v.push((".\"", true, Operation::PrintString));
    v.push(("CR", false, Operation::PrintNewline));
    v.push(("TYPE", false, Operation::TypeString));
    v.push(("EMIT", false, Operation::Emit));
    assert(v@ =~= operation_table());
    v
}

} // verus!
