use vstd::prelude::*;
use crate::environment::generic_numbers::{lemma_double_chunks_roundtrip, lemma_with_byte_reads_back};
use crate::environment::memory::{Address, MappingType, MemorySegment};
use crate::evaluate::state::Access;
use crate::environment::value::{CellValue, Value, ValueVariant};
use crate::evaluate::definition::{Definition, DefinitionTable, ExecutionToken, latest_index};
use crate::evaluate::{Error, Forth, ForthResult, ForthState};
use crate::evaluate::execution::Field;
use crate::evaluate::forth::{
    evaluated_in, step_answered, step_executed, step_finished, step_handled, stepped, text_evaluated,
};
use crate::evaluate::kernels::{DefaultKernel, Kernel};
use crate::debugging::profiler::{counted, token_index, wrapping_inc};
use crate::environment::heap::{cell_at, fresh_chunk, in_sized_pages, kept_in_use, Heap};
use crate::io::format::{decimal_digits, decimal_string, digit_char};
use crate::io::output_stream::OutputStream;
use crate::io::tokens::{is_space, all_digits, digit_value, digits_value, parse_number, upper_text};
use crate::operations::{
    operation_table, arithmetic_operations, compiler_control_operations, control_flow_operations, data_operations, memory_operations,
    print_operations, stack_operations, string_operations,
};

verus! {

/// The stack after pushing `v` onto `s`, then what popping a `T` off it gives and leaves.
pub open spec fn popped_after_push<T: ValueVariant>(s: Seq<Value>, v: T) -> (Result<T, Error>, Seq<Value>) {
    let t = s + v.spec_stack_cells();
    (T::spec_from_stack(t.skip(t.len() - T::spec_size())), t.take(t.len() - T::spec_size()))
}

/// Popping a number right after pushing it gives the number back and leaves the stack as
/// it was.
pub proof fn law_stack_number_roundtrip(s: Seq<Value>, n: i64)
    ensures popped_after_push(s, n) == (Ok::<i64, Error>(n), s),
{
    let t = s + n.spec_stack_cells();
    assert(t.skip(t.len() - 1) =~= seq![Value::Number(n)]);
    assert(t.take(t.len() - 1) =~= s);
}

/// Popping an unsigned number right after pushing it gives it back and leaves the stack as
/// it was.
pub proof fn law_stack_unsigned_roundtrip(s: Seq<Value>, n: u64)
    ensures popped_after_push(s, n) == (Ok::<u64, Error>(n), s),
{
    let t = s + n.spec_stack_cells();
    assert(t.skip(t.len() - 1) =~= seq![Value::Number(n as i64)]);
    assert(t.take(t.len() - 1) =~= s);
    assert((n as i64) as u64 == n) by (bit_vector);
}

/// Popping a cell right after pushing it gives it back and leaves the stack as it was.
pub proof fn law_stack_value_roundtrip(s: Seq<Value>, v: Value)
    ensures popped_after_push(s, v) == (Ok::<Value, Error>(v), s),
{
    let t = s + v.spec_stack_cells();
    assert(t.skip(t.len() - 1) =~= seq![v]);
    assert(t.take(t.len() - 1) =~= s);
}

/// Popping a double number right after pushing it gives it back and leaves the stack as it
/// was.
pub proof fn law_stack_double_roundtrip(s: Seq<Value>, n: i128)
    ensures popped_after_push(s, n) == (Ok::<i128, Error>(n), s),
{
    let t = s + n.spec_stack_cells();
    assert(t.skip(t.len() - 2) =~= n.spec_stack_cells());
    assert(t.take(t.len() - 2) =~= s);
    lemma_double_chunks_roundtrip(n);
}

/// `new` is `old` with `word` defined as `definition` (what `DefinitionTable::add` does).
pub open spec fn defined(old: &DefinitionTable, new: &DefinitionTable, word: Seq<char>, definition: Definition) -> bool {
    &&& new.spec_names() == old.spec_names().push(word)
    &&& new.spec_definitions() == old.spec_definitions().push(definition)
    &&& new.spec_temp_names() == old.spec_temp_names()
    &&& new.spec_temp_definitions() == old.spec_temp_definitions()
}

proof fn lemma_latest_index_push(names: Seq<Seq<char>>, word: Seq<char>, name: Seq<char>, n: nat)
    requires n <= names.len(),
    ensures latest_index(names.push(word), name, n) == latest_index(names, name, n),
    decreases n,
{
    if n > 0 {
        lemma_latest_index_push(names, word, name, (n - 1) as nat);
    }
}

/// After a word is defined, looking it up finds the new definition, and looking up any
/// other word finds what it found before.
pub proof fn law_lookup_after_define(
    old: &DefinitionTable,
    new: &DefinitionTable,
    word: Seq<char>,
    definition: Definition,
    other: Seq<char>,
)
    requires
        old.spec_names().len() == old.spec_definitions().len(),
        defined(old, new, word, definition),
    ensures
        new.spec_lookup(word) == Some(definition),
        other != word ==> new.spec_lookup(other) == old.spec_lookup(other),
{
    let names = old.spec_names();
    let n = names.len();
    assert(new.spec_names()[n as int] == word);
    lemma_latest_index_push(names, word, other, n);
    assert(new.spec_definitions()[n as int] == definition);
    if other != word {
        assert(latest_index(new.spec_names(), other, n + 1) == latest_index(names.push(word), other, n));
        if latest_index(names, other, n) >= 0 {
            crate::evaluate::definition::lemma_latest_index_bounds(names, other, n);
            assert(new.spec_definitions()[latest_index(names, other, n)] == old.spec_definitions()[latest_index(
                names,
                other,
                n,
            )]);
        }
    }
}

proof fn lemma_decimal_digits(m: nat)
    ensures
        decimal_digits(m).len() >= 1,
        all_digits(decimal_digits(m), 10),
        forall|i: int| 0 <= i < decimal_digits(m).len() ==> '0' <= #[trigger] decimal_digits(m)[i] <= '9',
        digits_value(decimal_digits(m), 10) == m,
    decreases m,
{
    let d = digit_char((m % 10) as int);
    assert(digit_value(d, 10) == Some((m % 10) as nat));
    if m >= 10 {
        lemma_decimal_digits(m / 10);
        let s = decimal_digits(m);
        assert(s.drop_last() =~= decimal_digits(m / 10));
        assert(s.last() == d);
        assert((m / 10) * 10 + m % 10 == m);
        assert(digits_value(s, 10) == digits_value(s.drop_last(), 10) * 10 + digit_value(s.last(), 10).unwrap());
        assert forall|i: int| 0 <= i < s.len() implies #[trigger] digit_value(s[i], 10) is Some by {
            if i < s.len() - 1 {
                assert(s[i] == decimal_digits(m / 10)[i]);
            }
        }
    } else {
        let s = decimal_digits(m);
        assert(s.drop_last() =~= Seq::<char>::empty());
        assert(s.last() == d);
        assert(digits_value(s, 10) == digits_value(s.drop_last(), 10) * 10 + digit_value(s.last(), 10).unwrap());
    }
}

/// The text a number is printed as reads back as the same number.
pub proof fn law_number_text_roundtrip(n: i64)
    ensures parse_number(decimal_string(n as int)) == Some(n),
{
    let s = decimal_string(n as int);
    if n < 0 {
        let m = (-(n as int)) as nat;
        lemma_decimal_digits(m);
        assert(s.skip(1) =~= decimal_digits(m));
        assert(s[0] == '-');
    } else {
        lemma_decimal_digits(n as nat);
        assert(s == decimal_digits(n as nat));
        if s.len() >= 2 {
            assert('0' <= s[1] <= '9');
        }
        assert('0' <= s[0] <= '9');
    }
}

/// The segment a write to `address` reaches in `state`, where the write is allowed.
pub open spec fn written_segment(state: &ForthState, address: Address) -> Option<MappingType> {
    match state.spec_access(address, Access::Write) {
        Ok(mt) => Some(mt),
        Err(_) => None,
    }
}

/// A write reaches the same segment that a read of the same address reaches.
proof fn lemma_access_same_segment(old: &ForthState, new: &ForthState, address: Address, mt: MappingType)
    requires
        old.spec_access(address, Access::Write) == Ok::<MappingType, Error>(mt),
        old.spec_access(address, Access::Read) is Ok,
        new.spec_same_outside(old, mt),
    ensures
        new.spec_access(address, Access::Read) == Ok::<MappingType, Error>(mt),
        new.spec_segment_contains(mt, address) == old.spec_segment_contains(mt, address),
{
    assert(new.spec_mapping_of(address) == old.spec_mapping_of(address));
}

/// After writing a cell succeeded at an address that can be read, reading a cell there gives
/// what was written.
pub proof fn law_read_after_write_value(old: &ForthState, new: &ForthState, address: Address, v: Value)
    requires
        ForthState::spec_write_effect(old, new, address, v, Ok(())),
        old.spec_access(address, Access::Read) is Ok,
    ensures
        new.spec_read_as::<Value>(address) == Ok::<Value, Error>(v),
{
    let mt = old.spec_access(address, Access::Write)->Ok_0;
    lemma_access_same_segment(old, new, address, mt);
}

/// After writing a number succeeded at an address that can be read, reading a number there
/// gives it back.
pub proof fn law_read_after_write_number(old: &ForthState, new: &ForthState, address: Address, n: i64)
    requires
        ForthState::spec_write_effect(old, new, address, n, Ok(())),
        old.spec_access(address, Access::Read) is Ok,
    ensures
        new.spec_read_as::<i64>(address) == Ok::<i64, Error>(n),
{
    let mt = old.spec_access(address, Access::Write)->Ok_0;
    lemma_access_same_segment(old, new, address, mt);
}

/// After writing a byte succeeded at an address that can be read, reading a byte there gives
/// it back.
pub proof fn law_read_after_write_byte(old: &ForthState, new: &ForthState, address: Address, b: u8)
    requires
        ForthState::spec_write_effect(old, new, address, b, Ok(())),
        old.spec_access(address, Access::Read) is Ok,
    ensures
        new.spec_read_as::<u8>(address) == Ok::<u8, Error>(b),
{
    let mt = old.spec_access(address, Access::Write)->Ok_0;
    lemma_access_same_segment(old, new, address, mt);
    let k = address.raw() % 8;
    let x = old.spec_segment_read(mt, address).spec_to_number();
    lemma_with_byte_reads_back(x, k, b as i8);
    assert(((b as i8) as u8) == b) by (bit_vector);
}

/// Whether `a` and `b` are the same cell of the same segment in `state`.
pub open spec fn same_cell(state: &ForthState, mt: MappingType, a: Address, b: Address) -> bool {
    state.spec_access(b, Access::Read) == Ok::<MappingType, Error>(mt) && state.spec_segment_index(mt, a)
        == state.spec_segment_index(mt, b)
}

/// Writing a cell leaves every other cell as it was.
pub proof fn law_write_keeps_other_cells(
    old: &ForthState,
    new: &ForthState,
    address: Address,
    v: Value,
    r: ForthResult,
    other: Address,
)
    requires
        ForthState::spec_write_effect(old, new, address, v, r),
        old.spec_read_cell(other) is Ok,
        written_segment(old, address) matches Some(mt) ==> !same_cell(old, mt, address, other),
    ensures
        new.spec_read_cell(other) == old.spec_read_cell(other),
{
    match old.spec_access(address, Access::Write) {
        Err(_) => {},
        Ok(mt) => {
            let mt2 = old.spec_access(other, Access::Read)->Ok_0;
            assert(new.spec_mapping_of(other) == old.spec_mapping_of(other));
            assert(new.spec_access(other, Access::Read) == old.spec_access(other, Access::Read));
            assert(new.spec_segment_contains(mt2, other) == old.spec_segment_contains(mt2, other));
            if mt2 != mt {
                assert(new.spec_segment_eq(old, mt2));
            } else {
                assert(old.spec_segment_contains(mt, other));
            }
        },
    }
}

/// What `ForthState::call` does: the instruction pointer (if any) is saved on the return
/// stack, a frame begins, and execution continues at `address`.
pub open spec fn called(old: &ForthState, new: &ForthState, address: Address) -> bool {
    let saved = match old.instruction_pointer {
        Some(a) => old.return_stack@.push(Value::Number(a.raw() as i64)),
        None => old.return_stack@,
    };
    &&& new.instruction_pointer == Some(address)
    &&& new.return_stack@ == saved.push(Value::Number(old.return_stack.spec_frame_offset() as i64))
    &&& new.return_stack.spec_frame_offset() == saved.len() + 1
}

/// Returning right after a call comes back to where the call was made, with the return
/// stack as it was (when the call was made from inside a definition, or with an empty
/// return stack).
pub proof fn law_return_after_call(s0: &ForthState, s1: &ForthState, s2: &ForthState, address: Address, r: ForthResult)
    requires
        called(s0, s1, address),
        ForthState::returned(s1, s2, r),
        s0.instruction_pointer is Some || s0.return_stack@.len() == 0,
    ensures
        r is Ok,
        s2.instruction_pointer == s0.instruction_pointer,
        s2.return_stack@ == s0.return_stack@,
{
    let saved = match s0.instruction_pointer {
        Some(a) => s0.return_stack@.push(Value::Number(a.raw() as i64)),
        None => s0.return_stack@,
    };
    let rs = s1.return_stack@;
    assert(rs.take(s1.return_stack.spec_frame_offset() as int) =~= rs);
    assert(rs.drop_last() =~= saved);
    match s0.instruction_pointer {
        Some(a) => {
            let x = a.0.0;
            assert(((x as i64) as u64) == x) by (bit_vector);
            assert(saved.drop_last() =~= s0.return_stack@);
        },
        None => {},
    }
}

/// Evaluating empty text on a default machine that is between instructions (no instruction
/// pointer, no current instruction) answers `Ok` and leaves the machine as it was, but for
/// its input.
pub proof fn law_evaluating_nothing(old: Forth<DefaultKernel>, new: Forth<DefaultKernel>, r: ForthResult)
    requires
        old.state.instruction_pointer is None,
        old.state.current_instruction is None,
        text_evaluated(old, new, Seq::empty(), r),
    ensures
        r is Ok,
        new.state.unchanged_except(&old.state, set![Field::Input]),
{
    let start = choose|start: Forth<DefaultKernel>|
        {
            &&& start.state.input_stream.spec_rest() == Seq::<char>::empty()
            &&& start.state.unchanged_except(&old.state, set![Field::Input])
            &&& start.kernel == old.kernel
            &&& #[trigger] evaluated_in(start, new, r, u64::MAX as nat)
        };
    let (mid, answer) = choose|mid: Forth<DefaultKernel>, answer: ForthResult|
        #[trigger] stepped(&start, &mid, answer) && match answer {
            Ok(()) => evaluated_in(mid, new, r, (u64::MAX - 1) as nat),
            Err(e) => new == mid && if crate::evaluate::forth::ends_evaluation(e) {
                r is Ok
            } else {
                r == Err::<(), Error>(e)
            },
        };
    let (k1, s1, evaluated) = choose|k1: DefaultKernel, s1: ForthState, evaluated: ForthResult|
        #[trigger] start.kernel.evaluates_chain(&k1, &start.state, &s1, evaluated) && step_executed(
            k1,
            s1,
            evaluated,
            &mid,
            answer,
        );
    assert(evaluated is Ok && s1 == start.state);
    let (s2, first) = choose|s2: ForthState, first: ForthResult|
        #[trigger] ForthState::instruction_executed(&s1, &s2, first) && step_handled(k1, s2, first, &mid, answer);
    assert(first is Ok);
    assert(s2.unchanged_except(&s1, set![Field::Pointer]));
    assert(s2.instruction_pointer is None);
    assert(step_finished(k1, s2, Ok(()), &mid, answer));
    let (s4, fetched) = choose|s4: ForthState, fetched: ForthResult|
        #[trigger] ForthState::instruction_fetched(&s2, &s4, fetched) && step_answered(k1, s4, fetched, &mid, answer);
    assert(s2.read_instruction_pointer_spec() is Err);
    assert(s2.input_stream.spec_rest() == Seq::<char>::empty());
    assert(fetched == Err::<(), Error>(Error::TokenStreamEmpty));
    assert(answer == Err::<(), Error>(Error::TokenStreamEmpty) && mid.state == s4);
}

/// Two chunks handed out one after the other by allocations that found nothing waiting for
/// reuse (`fresh_chunk`), with the first allocation's cells kept in use by the second
/// (`kept_in_use`), share no cell: a cell of the first chunk in the sized pages of its run
/// is never a cell of the second.
pub proof fn law_fresh_chunks_disjoint(
    h0: &Heap,
    h1: &Heap,
    h2: &Heap,
    a1: Address,
    s1: nat,
    a2: Address,
    s2: nat,
    i: int,
    j: int,
)
    requires
        fresh_chunk(h0, h1, a1, s1),
        fresh_chunk(h1, h2, a2, s2),
        kept_in_use(h1, h2),
        0 <= i < s1,
        0 <= j < s2,
        in_sized_pages(h1.spec_heap_base(), cell_at(a1, i)),
    ensures
        cell_at(a1, i) != cell_at(a2, j),
        i == 0 && j == 0 ==> a1 != a2,
{
    assert(h1.spec_contains(cell_at(a1, i)));
    assert(!h1.spec_contains(cell_at(a2, j)));
    assert(cell_at(a1, 0) == a1);
    assert(cell_at(a2, 0) == a2);
}

/// Each name in the table of the stack words is its own upper-case form.
proof fn lemma_stack_names_upper()
    ensures
        forall|i: int| 0 <= i < stack_operations::operation_table().len() ==> upper_text(#[trigger] stack_operations::operation_table()[i].0@) == stack_operations::operation_table()[i].0@,
{
    let t = stack_operations::operation_table();
    reveal_strlit("-ROT");
    reveal_strlit("2-ROT");
    reveal_strlit("2>R");
    reveal_strlit("2?DUP");
    reveal_strlit("2DROP");
    reveal_strlit("2DUP");
    reveal_strlit("2NIP");
    reveal_strlit("2OVER");
    reveal_strlit("2R>");
    reveal_strlit("2R@");
    reveal_strlit("2ROT");
    reveal_strlit("2SWAP");
    reveal_strlit("2TUCK");
    reveal_strlit(">R");
    reveal_strlit("?DUP");
    reveal_strlit("DROP");
    reveal_strlit("DUP");
    reveal_strlit("NIP");
    reveal_strlit("OVER");
    reveal_strlit("POP_FRAME");
    reveal_strlit("PUSH_FRAME");
    reveal_strlit("R>");
    reveal_strlit("R@");
    reveal_strlit("ROT");
    reveal_strlit("SWAP");
    reveal_strlit("TUCK");
    assert forall|i: int| 0 <= i < t.len() implies upper_text(#[trigger] t[i].0@) == t[i].0@ by {
        if i == 0 {
            assert(upper_text(">R"@) =~= ">R"@);
        } else if i == 1 {
            assert(upper_text("R>"@) =~= "R>"@);
        } else if i == 2 {
            assert(upper_text("R@"@) =~= "R@"@);
        } else if i == 3 {
            assert(upper_text("DUP"@) =~= "DUP"@);
        } else if i == 4 {
            assert(upper_text("?DUP"@) =~= "?DUP"@);
        } else if i == 5 {
            assert(upper_text("DROP"@) =~= "DROP"@);
        } else if i == 6 {
            assert(upper_text("SWAP"@) =~= "SWAP"@);
        } else if i == 7 {
            assert(upper_text("OVER"@) =~= "OVER"@);
        } else if i == 8 {
            assert(upper_text("ROT"@) =~= "ROT"@);
        } else if i == 9 {
            assert(upper_text("-ROT"@) =~= "-ROT"@);
        } else if i == 10 {
            assert(upper_text("NIP"@) =~= "NIP"@);
        } else if i == 11 {
            assert(upper_text("TUCK"@) =~= "TUCK"@);
        } else if i == 12 {
            assert(upper_text("2>R"@) =~= "2>R"@);
        } else if i == 13 {
            assert(upper_text("2R>"@) =~= "2R>"@);
        } else if i == 14 {
            assert(upper_text("2R@"@) =~= "2R@"@);
        } else if i == 15 {
            assert(upper_text("2DUP"@) =~= "2DUP"@);
        } else if i == 16 {
            assert(upper_text("2?DUP"@) =~= "2?DUP"@);
        } else if i == 17 {
            assert(upper_text("2DROP"@) =~= "2DROP"@);
        } else if i == 18 {
            assert(upper_text("2SWAP"@) =~= "2SWAP"@);
        } else if i == 19 {
            assert(upper_text("2OVER"@) =~= "2OVER"@);
        } else if i == 20 {
            assert(upper_text("2ROT"@) =~= "2ROT"@);
        } else if i == 21 {
            assert(upper_text("2-ROT"@) =~= "2-ROT"@);
        } else if i == 22 {
            assert(upper_text("2NIP"@) =~= "2NIP"@);
        } else if i == 23 {
            assert(upper_text("2TUCK"@) =~= "2TUCK"@);
        } else if i == 24 {
            assert(upper_text("PUSH_FRAME"@) =~= "PUSH_FRAME"@);
        } else if i == 25 {
            assert(upper_text("POP_FRAME"@) =~= "POP_FRAME"@);
        }
    }
}

/// Each name in the table of the arithmetic words is its own upper-case form.
proof fn lemma_arithmetic_names_upper()
    ensures
        forall|i: int| 0 <= i < arithmetic_operations::operation_table().len() ==> upper_text(#[trigger] arithmetic_operations::operation_table()[i].0@) == arithmetic_operations::operation_table()[i].0@,
{
    let t = arithmetic_operations::operation_table();
    reveal_strlit("*");
    reveal_strlit("*/");
    reveal_strlit("+");
    reveal_strlit("-");
    reveal_strlit("/");
    reveal_strlit("0<");
    reveal_strlit("0=");
    reveal_strlit("0>");
    reveal_strlit("2*");
    reveal_strlit("2/");
    reveal_strlit("<");
    reveal_strlit("<=");
    reveal_strlit("<>");
    reveal_strlit("=");
    reveal_strlit(">");
    reveal_strlit(">=");
    reveal_strlit("ABS");
    reveal_strlit("AND");
    reveal_strlit("D*");
    reveal_strlit("D+");
    reveal_strlit("D-");
    reveal_strlit("D/");
    reveal_strlit("D0<");
    reveal_strlit("D0=");
    reveal_strlit("D0>");
    reveal_strlit("D2*");
    reveal_strlit("D2/");
    reveal_strlit("D<");
    reveal_strlit("D<=");
    reveal_strlit("D<>");
    reveal_strlit("D=");
    reveal_strlit("D>");
    reveal_strlit("D>=");
    reveal_strlit("DABS");
    reveal_strlit("DAND");
    reveal_strlit("DMAX");
    reveal_strlit("DMIN");
    reveal_strlit("DMOD");
    reveal_strlit("DNEGATE");
    reveal_strlit("DOR");
    reveal_strlit("M*");
    reveal_strlit("M+");
    reveal_strlit("M-");
    reveal_strlit("M2*");
    reveal_strlit("M2/");
    reveal_strlit("MAX");
    reveal_strlit("MIN");
    reveal_strlit("MOD");
    reveal_strlit("NEGATE");
    reveal_strlit("OR");
    reveal_strlit("U*");
    reveal_strlit("U*/");
    reveal_strlit("U+");
    reveal_strlit("U-");
    reveal_strlit("U/");
    reveal_strlit("U0<");
    reveal_strlit("U0>");
    reveal_strlit("U2*");
    reveal_strlit("U2/");
    reveal_strlit("U<");
    reveal_strlit("U<=");
    reveal_strlit("U>");
    reveal_strlit("U>=");
    reveal_strlit("UD*");
    reveal_strlit("UD+");
    reveal_strlit("UD-");
    reveal_strlit("UD/");
    reveal_strlit("UD0<");
    reveal_strlit("UD0>");
    reveal_strlit("UD2*");
    reveal_strlit("UD2/");
    reveal_strlit("UD<");
    reveal_strlit("UD<=");
    reveal_strlit("UD>");
    reveal_strlit("UD>=");
    reveal_strlit("UDMAX");
    reveal_strlit("UDMIN");
    reveal_strlit("UM*");
    reveal_strlit("UM+");
    reveal_strlit("UM-");
    reveal_strlit("UM2*");
    reveal_strlit("UM2/");
    reveal_strlit("UMAX");
    reveal_strlit("UMIN");
    assert forall|i: int| 0 <= i < t.len() implies upper_text(#[trigger] t[i].0@) == t[i].0@ by {
        if i == 0 {
            assert(upper_text("+"@) =~= "+"@);
        } else if i == 1 {
            assert(upper_text("-"@) =~= "-"@);
        } else if i == 2 {
            assert(upper_text("*"@) =~= "*"@);
        } else if i == 3 {
            assert(upper_text("2*"@) =~= "2*"@);
        } else if i == 4 {
            assert(upper_text("2/"@) =~= "2/"@);
        } else if i == 5 {
            assert(upper_text("D+"@) =~= "D+"@);
        } else if i == 6 {
            assert(upper_text("D-"@) =~= "D-"@);
        } else if i == 7 {
            assert(upper_text("D*"@) =~= "D*"@);
        } else if i == 8 {
            assert(upper_text("D2*"@) =~= "D2*"@);
        } else if i == 9 {
            assert(upper_text("D2/"@) =~= "D2/"@);
        } else if i == 10 {
            assert(upper_text("U+"@) =~= "U+"@);
        } else if i == 11 {
            assert(upper_text("U-"@) =~= "U-"@);
        } else if i == 12 {
            assert(upper_text("U*"@) =~= "U*"@);
        } else if i == 13 {
            assert(upper_text("U2*"@) =~= "U2*"@);
        } else if i == 14 {
            assert(upper_text("U2/"@) =~= "U2/"@);
        } else if i == 15 {
            assert(upper_text("UD+"@) =~= "UD+"@);
        } else if i == 16 {
            assert(upper_text("UD-"@) =~= "UD-"@);
        } else if i == 17 {
            assert(upper_text("UD*"@) =~= "UD*"@);
        } else if i == 18 {
            assert(upper_text("UD2*"@) =~= "UD2*"@);
        } else if i == 19 {
            assert(upper_text("UD2/"@) =~= "UD2/"@);
        } else if i == 20 {
            assert(upper_text("M+"@) =~= "M+"@);
        } else if i == 21 {
            assert(upper_text("M-"@) =~= "M-"@);
        } else if i == 22 {
            assert(upper_text("M*"@) =~= "M*"@);
        } else if i == 23 {
            assert(upper_text("M2*"@) =~= "M2*"@);
        } else if i == 24 {
            assert(upper_text("M2/"@) =~= "M2/"@);
        } else if i == 25 {
            assert(upper_text("UM+"@) =~= "UM+"@);
        } else if i == 26 {
            assert(upper_text("UM-"@) =~= "UM-"@);
        } else if i == 27 {
            assert(upper_text("UM*"@) =~= "UM*"@);
        } else if i == 28 {
            assert(upper_text("UM2*"@) =~= "UM2*"@);
        } else if i == 29 {
            assert(upper_text("UM2/"@) =~= "UM2/"@);
        } else if i == 30 {
            assert(upper_text("*/"@) =~= "*/"@);
        } else if i == 31 {
            assert(upper_text("U*/"@) =~= "U*/"@);
        } else if i == 32 {
            assert(upper_text("<"@) =~= "<"@);
        } else if i == 33 {
            assert(upper_text(">"@) =~= ">"@);
        } else if i == 34 {
            assert(upper_text("<="@) =~= "<="@);
        } else if i == 35 {
            assert(upper_text(">="@) =~= ">="@);
        } else if i == 36 {
            assert(upper_text("0<"@) =~= "0<"@);
        } else if i == 37 {
            assert(upper_text("0>"@) =~= "0>"@);
        } else if i == 38 {
            assert(upper_text("/"@) =~= "/"@);
        } else if i == 39 {
            assert(upper_text("MIN"@) =~= "MIN"@);
        } else if i == 40 {
            assert(upper_text("MAX"@) =~= "MAX"@);
        } else if i == 41 {
            assert(upper_text("D<"@) =~= "D<"@);
        } else if i == 42 {
            assert(upper_text("D>"@) =~= "D>"@);
        } else if i == 43 {
            assert(upper_text("D<="@) =~= "D<="@);
        } else if i == 44 {
            assert(upper_text("D>="@) =~= "D>="@);
        } else if i == 45 {
            assert(upper_text("D0<"@) =~= "D0<"@);
        } else if i == 46 {
            assert(upper_text("D0>"@) =~= "D0>"@);
        } else if i == 47 {
            assert(upper_text("D/"@) =~= "D/"@);
        } else if i == 48 {
            assert(upper_text("DMIN"@) =~= "DMIN"@);
        } else if i == 49 {
            assert(upper_text("DMAX"@) =~= "DMAX"@);
        } else if i == 50 {
            assert(upper_text("U<"@) =~= "U<"@);
        } else if i == 51 {
            assert(upper_text("U>"@) =~= "U>"@);
        } else if i == 52 {
            assert(upper_text("U<="@) =~= "U<="@);
        } else if i == 53 {
            assert(upper_text("U>="@) =~= "U>="@);
        } else if i == 54 {
            assert(upper_text("U0<"@) =~= "U0<"@);
        } else if i == 55 {
            assert(upper_text("U0>"@) =~= "U0>"@);
        } else if i == 56 {
            assert(upper_text("U/"@) =~= "U/"@);
        } else if i == 57 {
            assert(upper_text("UMIN"@) =~= "UMIN"@);
        } else if i == 58 {
            assert(upper_text("UMAX"@) =~= "UMAX"@);
        } else if i == 59 {
            assert(upper_text("UD<"@) =~= "UD<"@);
        } else if i == 60 {
            assert(upper_text("UD>"@) =~= "UD>"@);
        } else if i == 61 {
            assert(upper_text("UD<="@) =~= "UD<="@);
        } else if i == 62 {
            assert(upper_text("UD>="@) =~= "UD>="@);
        } else if i == 63 {
            assert(upper_text("UD0<"@) =~= "UD0<"@);
        } else if i == 64 {
            assert(upper_text("UD0>"@) =~= "UD0>"@);
        } else if i == 65 {
            assert(upper_text("UD/"@) =~= "UD/"@);
        } else if i == 66 {
            assert(upper_text("UDMIN"@) =~= "UDMIN"@);
        } else if i == 67 {
            assert(upper_text("UDMAX"@) =~= "UDMAX"@);
        } else if i == 68 {
            assert(upper_text("ABS"@) =~= "ABS"@);
        } else if i == 69 {
            assert(upper_text("NEGATE"@) =~= "NEGATE"@);
        } else if i == 70 {
            assert(upper_text("MOD"@) =~= "MOD"@);
        } else if i == 71 {
            assert(upper_text("="@) =~= "="@);
        } else if i == 72 {
            assert(upper_text("<>"@) =~= "<>"@);
        } else if i == 73 {
            assert(upper_text("AND"@) =~= "AND"@);
        } else if i == 74 {
            assert(upper_text("OR"@) =~= "OR"@);
        } else if i == 75 {
            assert(upper_text("0="@) =~= "0="@);
        } else if i == 76 {
            assert(upper_text("DABS"@) =~= "DABS"@);
        } else if i == 77 {
            assert(upper_text("DNEGATE"@) =~= "DNEGATE"@);
        } else if i == 78 {
            assert(upper_text("DMOD"@) =~= "DMOD"@);
        } else if i == 79 {
            assert(upper_text("D="@) =~= "D="@);
        } else if i == 80 {
            assert(upper_text("D<>"@) =~= "D<>"@);
        } else if i == 81 {
            assert(upper_text("DAND"@) =~= "DAND"@);
        } else if i == 82 {
            assert(upper_text("DOR"@) =~= "DOR"@);
        } else if i == 83 {
            assert(upper_text("D0="@) =~= "D0="@);
        }
    }
}

/// Each name in the table of the memory words is its own upper-case form.
proof fn lemma_memory_names_upper()
    ensures
        forall|i: int| 0 <= i < memory_operations::operation_table().len() ==> upper_text(#[trigger] memory_operations::operation_table()[i].0@) == memory_operations::operation_table()[i].0@,
{
    let t = memory_operations::operation_table();
    reveal_strlit("!");
    reveal_strlit(",");
    reveal_strlit("2!");
    reveal_strlit("2@");
    reveal_strlit("@");
    reveal_strlit("C!");
    reveal_strlit("C@");
    assert forall|i: int| 0 <= i < t.len() implies upper_text(#[trigger] t[i].0@) == t[i].0@ by {
        if i == 0 {
            assert(upper_text(","@) =~= ","@);
        } else if i == 1 {
            assert(upper_text("!"@) =~= "!"@);
        } else if i == 2 {
            assert(upper_text("@"@) =~= "@"@);
        } else if i == 3 {
            assert(upper_text("C!"@) =~= "C!"@);
        } else if i == 4 {
            assert(upper_text("C@"@) =~= "C@"@);
        } else if i == 5 {
            assert(upper_text("2!"@) =~= "2!"@);
        } else if i == 6 {
            assert(upper_text("2@"@) =~= "2@"@);
        }
    }
}

/// Each name in the table of the data words is its own upper-case form.
proof fn lemma_data_names_upper()
    ensures
        forall|i: int| 0 <= i < data_operations::operation_table().len() ==> upper_text(#[trigger] data_operations::operation_table()[i].0@) == data_operations::operation_table()[i].0@,
{
    let t = data_operations::operation_table();
    reveal_strlit("2CONSTANT");
    reveal_strlit("2VARIABLE");
    reveal_strlit("ALLOCATE");
    reveal_strlit("ALLOT");
    reveal_strlit("CELLS");
    reveal_strlit("CONSTANT");
    reveal_strlit("CREATE");
    reveal_strlit("DOES>");
    reveal_strlit("FREE");
    reveal_strlit("HERE");
    reveal_strlit("MAP");
    reveal_strlit("RESIZE");
    reveal_strlit("TO");
    reveal_strlit("VALUE");
    reveal_strlit("VARIABLE");
    assert forall|i: int| 0 <= i < t.len() implies upper_text(#[trigger] t[i].0@) == t[i].0@ by {
        if i == 0 {
            assert(upper_text("HERE"@) =~= "HERE"@);
        } else if i == 1 {
            assert(upper_text("ALLOT"@) =~= "ALLOT"@);
        } else if i == 2 {
            assert(upper_text("CREATE"@) =~= "CREATE"@);
        } else if i == 3 {
            assert(upper_text("DOES>"@) =~= "DOES>"@);
        } else if i == 4 {
            assert(upper_text("VALUE"@) =~= "VALUE"@);
        } else if i == 5 {
            assert(upper_text("CELLS"@) =~= "CELLS"@);
        } else if i == 6 {
            assert(upper_text("TO"@) =~= "TO"@);
        } else if i == 7 {
            assert(upper_text("MAP"@) =~= "MAP"@);
        } else if i == 8 {
            assert(upper_text("ALLOCATE"@) =~= "ALLOCATE"@);
        } else if i == 9 {
            assert(upper_text("FREE"@) =~= "FREE"@);
        } else if i == 10 {
            assert(upper_text("RESIZE"@) =~= "RESIZE"@);
        } else if i == 11 {
            assert(upper_text("VARIABLE"@) =~= "VARIABLE"@);
        } else if i == 12 {
            assert(upper_text("CONSTANT"@) =~= "CONSTANT"@);
        } else if i == 13 {
            assert(upper_text("2VARIABLE"@) =~= "2VARIABLE"@);
        } else if i == 14 {
            assert(upper_text("2CONSTANT"@) =~= "2CONSTANT"@);
        }
    }
}

/// Each name in the table of the control flow words is its own upper-case form.
proof fn lemma_control_flow_names_upper()
    ensures
        forall|i: int| 0 <= i < control_flow_operations::operation_table().len() ==> upper_text(#[trigger] control_flow_operations::operation_table()[i].0@) == control_flow_operations::operation_table()[i].0@,
{
    let t = control_flow_operations::operation_table();
    reveal_strlit("+LOOP");
    reveal_strlit("AGAIN");
    reveal_strlit("BEGIN");
    reveal_strlit("BREAK");
    reveal_strlit("DO");
    reveal_strlit("EVALUATE");
    reveal_strlit("EXIT");
    reveal_strlit("LEAVE");
    reveal_strlit("LOOP");
    reveal_strlit("REPEAT");
    reveal_strlit("THROW");
    reveal_strlit("UNTIL");
    reveal_strlit("WHILE");
    assert forall|i: int| 0 <= i < t.len() implies upper_text(#[trigger] t[i].0@) == t[i].0@ by {
        if i == 0 {
            assert(upper_text("BREAK"@) =~= "BREAK"@);
        } else if i == 1 {
            assert(upper_text("DO"@) =~= "DO"@);
        } else if i == 2 {
            assert(upper_text("+LOOP"@) =~= "+LOOP"@);
        } else if i == 3 {
            assert(upper_text("LOOP"@) =~= "LOOP"@);
        } else if i == 4 {
            assert(upper_text("BEGIN"@) =~= "BEGIN"@);
        } else if i == 5 {
            assert(upper_text("UNTIL"@) =~= "UNTIL"@);
        } else if i == 6 {
            assert(upper_text("AGAIN"@) =~= "AGAIN"@);
        } else if i == 7 {
            assert(upper_text("WHILE"@) =~= "WHILE"@);
        } else if i == 8 {
            assert(upper_text("REPEAT"@) =~= "REPEAT"@);
        } else if i == 9 {
            assert(upper_text("LEAVE"@) =~= "LEAVE"@);
        } else if i == 10 {
            assert(upper_text("EXIT"@) =~= "EXIT"@);
        } else if i == 11 {
            assert(upper_text("THROW"@) =~= "THROW"@);
        } else if i == 12 {
            assert(upper_text("EVALUATE"@) =~= "EVALUATE"@);
        }
    }
}

/// Each name in the table of the compiler control words is its own upper-case form.
proof fn lemma_compiler_control_names_upper()
    ensures
        forall|i: int| 0 <= i < compiler_control_operations::operation_table().len() ==> upper_text(#[trigger] compiler_control_operations::operation_table()[i].0@) == compiler_control_operations::operation_table()[i].0@,
{
    let t = compiler_control_operations::operation_table();
    reveal_strlit("'");
    reveal_strlit("(");
    reveal_strlit(":");
    reveal_strlit(";");
    reveal_strlit(">BODY");
    reveal_strlit("EXECUTE");
    reveal_strlit("IMMEDIATE");
    reveal_strlit("LITERAL");
    reveal_strlit("LOCALS|");
    reveal_strlit("POSTPONE");
    reveal_strlit("STATE");
    reveal_strlit("[");
    reveal_strlit("[']");
    reveal_strlit("\\");
    reveal_strlit("]");
    reveal_strlit("_B");
    reveal_strlit("_BNE");
    reveal_strlit("{");
    assert forall|i: int| 0 <= i < t.len() implies upper_text(#[trigger] t[i].0@) == t[i].0@ by {
        if i == 0 {
            assert(upper_text("IMMEDIATE"@) =~= "IMMEDIATE"@);
        } else if i == 1 {
            assert(upper_text("["@) =~= "["@);
        } else if i == 2 {
            assert(upper_text("]"@) =~= "]"@);
        } else if i == 3 {
            assert(upper_text(":"@) =~= ":"@);
        } else if i == 4 {
            assert(upper_text(";"@) =~= ";"@);
        } else if i == 5 {
            assert(upper_text("POSTPONE"@) =~= "POSTPONE"@);
        } else if i == 6 {
            assert(upper_text("LITERAL"@) =~= "LITERAL"@);
        } else if i == 7 {
            assert(upper_text("EXECUTE"@) =~= "EXECUTE"@);
        } else if i == 8 {
            assert(upper_text("'"@) =~= "'"@);
        } else if i == 9 {
            assert(upper_text(">BODY"@) =~= ">BODY"@);
        } else if i == 10 {
            assert(upper_text("[']"@) =~= "[']"@);
        } else if i == 11 {
            assert(upper_text("("@) =~= "("@);
        } else if i == 12 {
            assert(upper_text("\\"@) =~= "\\"@);
        } else if i == 13 {
            assert(upper_text("STATE"@) =~= "STATE"@);
        } else if i == 14 {
            assert(upper_text("_BNE"@) =~= "_BNE"@);
        } else if i == 15 {
            assert(upper_text("_B"@) =~= "_B"@);
        } else if i == 16 {
            assert(upper_text("LOCALS|"@) =~= "LOCALS|"@);
        } else if i == 17 {
            assert(upper_text("{"@) =~= "{"@);
        }
    }
}

/// Each name in the table of the print words is its own upper-case form.
proof fn lemma_print_names_upper()
    ensures
        forall|i: int| 0 <= i < print_operations::operation_table().len() ==> upper_text(#[trigger] print_operations::operation_table()[i].0@) == print_operations::operation_table()[i].0@,
{
    let t = print_operations::operation_table();
    reveal_strlit(".");
    reveal_strlit(".\"");
    reveal_strlit("C.");
    reveal_strlit("CR");
    reveal_strlit("D.");
    reveal_strlit("EMIT");
    reveal_strlit("TYPE");
    reveal_strlit("U.");
    assert forall|i: int| 0 <= i < t.len() implies upper_text(#[trigger] t[i].0@) == t[i].0@ by {
        if i == 0 {
            assert(upper_text("."@) =~= "."@);
        } else if i == 1 {
            assert(upper_text("D."@) =~= "D."@);
        } else if i == 2 {
            assert(upper_text("C."@) =~= "C."@);
        } else if i == 3 {
            assert(upper_text("U."@) =~= "U."@);
        } else if i == 4 {
            assert(upper_text(".\""@) =~= ".\""@);
        } else if i == 5 {
            assert(upper_text("CR"@) =~= "CR"@);
        } else if i == 6 {
            assert(upper_text("TYPE"@) =~= "TYPE"@);
        } else if i == 7 {
            assert(upper_text("EMIT"@) =~= "EMIT"@);
        }
    }
}

/// Each name in the table of the string words is its own upper-case form.
proof fn lemma_string_names_upper()
    ensures
        forall|i: int| 0 <= i < string_operations::operation_table().len() ==> upper_text(#[trigger] string_operations::operation_table()[i].0@) == string_operations::operation_table()[i].0@,
{
    let t = string_operations::operation_table();
    reveal_strlit("-TRAILING");
    reveal_strlit("ACCEPT");
    reveal_strlit("CHAR");
    reveal_strlit("CMOVE");
    reveal_strlit("CMOVE>");
    reveal_strlit("COUNT");
    reveal_strlit("KEY");
    reveal_strlit("MOVE");
    reveal_strlit("WORD");
    assert forall|i: int| 0 <= i < t.len() implies upper_text(#[trigger] t[i].0@) == t[i].0@ by {
        if i == 0 {
            assert(upper_text("CHAR"@) =~= "CHAR"@);
        } else if i == 1 {
            assert(upper_text("KEY"@) =~= "KEY"@);
        } else if i == 2 {
            assert(upper_text("WORD"@) =~= "WORD"@);
        } else if i == 3 {
            assert(upper_text("-TRAILING"@) =~= "-TRAILING"@);
        } else if i == 4 {
            assert(upper_text("CMOVE"@) =~= "CMOVE"@);
        } else if i == 5 {
            assert(upper_text("CMOVE>"@) =~= "CMOVE>"@);
        } else if i == 6 {
            assert(upper_text("MOVE"@) =~= "MOVE"@);
        } else if i == 7 {
            assert(upper_text("ACCEPT"@) =~= "ACCEPT"@);
        } else if i == 8 {
            assert(upper_text("COUNT"@) =~= "COUNT"@);
        }
    }
}
/// Every built-in word's name is its own upper-case form, so the tokenizer, which
/// upper-cases the words it reads, reaches each built-in by its name written in any case.
pub proof fn law_builtin_names_upper_case()
    ensures
        forall|i: int| 0 <= i < operation_table().len() ==> upper_text(#[trigger] operation_table()[i].0@) == operation_table()[i].0@,
{
    lemma_arithmetic_names_upper();
    lemma_memory_names_upper();
    lemma_stack_names_upper();
    lemma_data_names_upper();
    lemma_control_flow_names_upper();
    lemma_compiler_control_names_upper();
    lemma_print_names_upper();
    lemma_string_names_upper();
}

/// The sum of the counts of `entries`.
pub open spec fn count_sum(entries: Seq<(ExecutionToken, usize)>) -> int
    decreases entries.len(),
{
    if entries.len() == 0 {
        0
    } else {
        count_sum(entries.drop_last()) + entries.last().1
    }
}

/// The position found for an instruction lies among the first `n` entries, or is `-1`.
proof fn lemma_token_index_bounds(entries: Seq<(ExecutionToken, usize)>, xt: ExecutionToken, n: nat)
    ensures
        -1 <= token_index(entries, xt, n) < n,
    decreases n,
{
    if n > 0 {
        lemma_token_index_bounds(entries, xt, (n - 1) as nat);
    }
}

/// Changing the count at `i` changes the sum by the difference.
proof fn lemma_count_sum_update(entries: Seq<(ExecutionToken, usize)>, i: int, v: (ExecutionToken, usize))
    requires
        0 <= i < entries.len(),
    ensures
        count_sum(entries.update(i, v)) == count_sum(entries) - entries[i].1 + v.1,
    decreases entries.len(),
{
    let u = entries.update(i, v);
    if i == entries.len() - 1 {
        assert(u.drop_last() =~= entries.drop_last());
    } else {
        assert(u.drop_last() =~= entries.drop_last().update(i, v));
        lemma_count_sum_update(entries.drop_last(), i, v);
    }
}

/// Counting one more run of an instruction keeps the total and the sum of the counts equal
/// up to the word size: both go up by one, wrapping around at the largest `usize`.
pub proof fn law_counts_sum_to_total(entries: Seq<(ExecutionToken, usize)>, xt: ExecutionToken, total: usize)
    ensures
        (count_sum(counted(entries, xt)) - wrapping_inc(total) - (count_sum(entries) - total)) % (usize::MAX as int
            + 1) == 0,
{
    let m = usize::MAX as int + 1;
    let i = token_index(entries, xt, entries.len());
    lemma_token_index_bounds(entries, xt, entries.len());
    let d: int = if i >= 0 {
        lemma_count_sum_update(entries, i, (xt, wrapping_inc(entries[i].1)));
        wrapping_inc(entries[i].1) - entries[i].1
    } else {
        assert(entries.push((xt, 1usize)).drop_last() =~= entries);
        1
    };
    assert(count_sum(counted(entries, xt)) == count_sum(entries) + d);
    let e: int = wrapping_inc(total) - total;
    assert(d == 1 || d == 1 - m);
    assert(e == 1 || e == 1 - m);
    assert((d - e) % m == 0) by (nonlinear_arith)
        requires
            d == 1 || d == 1 - m,
            e == 1 || e == 1 - m,
            m > 0;
}

/// EMIT takes one number off the stack and writes exactly one character after the output
/// already pending: the character whose code is that number's lowest byte.
pub proof fn law_emit_writes_popped_code(old: &ForthState, new: &ForthState, r: ForthResult)
    requires
        print_operations::emit_effect(old, new, r),
        old.stack@.len() > 0,
        old.output_stream.spec_keeps(),
    ensures
        r is Ok,
        new.stack@ == old.stack@.drop_last(),
        exists|ch: char|
            #![trigger old.output_stream.spec_pending().push(ch)]
            ch as int == (old.stack@.last().spec_to_number() as u64) as int % 256
                && new.output_stream.spec_pending() == old.output_stream.spec_pending().push(ch),
{
    let before = old.output_stream.spec_pending();
    let after = new.output_stream.spec_pending();
    let ch = after.last();
    assert(after =~= before.push(ch));
}

/// The run-time part of a constant leaves the stack it found, with the value stored at the
/// instruction pointer on top: popping that value again gives back what was read there.
pub proof fn law_constant_pushes_stored_value<N: CellValue>(old: &ForthState, new: &ForthState, r: ForthResult, ip: Address, v: N)
    requires
        data_operations::constant_runtime_effect::<N>(old, new, r),
        old.instruction_pointer == Some(ip),
        old.spec_read_as::<N>(ip) == Ok::<N, Error>(v),
    ensures
        new.stack@.len() == old.stack@.len() + N::spec_size(),
        new.stack@.take(old.stack@.len() as int) == old.stack@,
        N::spec_from_stack(new.stack@.skip(old.stack@.len() as int)) == Ok::<N, Error>(v),
{
    N::lemma_value_cells(v);
    let s = old.stack@;
    assert(new.stack@.take(s.len() as int) =~= s);
    assert(new.stack@.skip(s.len() as int) =~= v.spec_stack_cells());
}

/// -TRAILING, on success, leaves the address and a length `n` that cuts off exactly the
/// bytes at the end of the string that are white space or not ASCII: the byte before `n`
/// (where there is one) is ASCII and not white space, and every byte from `n` up to the
/// count is white space or not ASCII. The bytes are those the machine reads once the two
/// operands are popped.
pub proof fn law_trailing_cuts_trailing_space(old: &ForthState, new: &ForthState, r: ForthResult, mid: ForthState)
    requires
        string_operations::trailing_effect(old, new, r),
        string_operations::popped(old, mid, 2),
        r is Ok,
    ensures
        ({
            let s = old.stack@;
            let count = s.last().spec_to_number() as u64;
            let address = memory_operations::address_of(s[s.len() - 2]);
            let n = new.stack@.last().spec_to_number() as u64;
            &&& n <= count
            &&& new.stack@ == s.take(s.len() - 2).push(Value::Number(address.raw() as i64)).push(new.stack@.last())
            &&& n == 0 || (string_operations::byte_at(&mid, address, n - 1) matches Ok(b) && b < 128 && !is_space(
                b as char,
            ))
            &&& forall|i: int|
                n <= i < count ==> (#[trigger] string_operations::byte_at(&mid, address, i) matches Ok(b) && (b >= 128
                    || is_space(b as char)))
        }),
{
    let s = old.stack@;
    let m = choose|m: ForthState| #[trigger] string_operations::popped(old, m, 2)
        && string_operations::trailing_answer(&m, s, new, r);
    let address = memory_operations::address_of(s[s.len() - 2]);
    let count = s.last().spec_to_number() as u64;
    let n = new.stack@.last().spec_to_number() as u64;
    assert forall|i: int| true implies #[trigger] string_operations::byte_at(&mid, address, i)
        == string_operations::byte_at(&m, address, i) by {
        string_operations::lemma_popped_reads(old, mid, m, 2, address, i);
    }
    assert(new.stack@ =~= s.take(s.len() - 2).push(Value::Number(address.raw() as i64)).push(new.stack@.last()));
}

/// RESIZE answers what the heap's resize gives: where that is an address, the two operands
/// are replaced by the address and 0, over the stack beneath them.
pub proof fn law_resize_pushes_heap_answer(old: &ForthState, new: &ForthState, r: ForthResult, a: Address)
    requires
        data_operations::resize_effect(old, new, r),
        old.stack@.len() >= 2,
        (old.stack@.last().spec_to_number() as u64) as int + 7 <= u64::MAX,
        old.heap.spec_resize_result(
            memory_operations::address_of(old.stack@[old.stack@.len() - 2]),
            crate::environment::units::div_ceil((old.stack@.last().spec_to_number() as u64) as int, 8) as nat,
        ) == Ok::<Address, Error>(a),
    ensures
        r is Ok,
        new.stack@ == old.stack@.take(old.stack@.len() - 2).push(Value::Number(a.raw() as i64)).push(Value::Number(0)),
{
    let s = old.stack@;
    assert(s.take(s.len() - 2) + seq![Value::Number(a.raw() as i64), Value::Number(0)] =~= s.take(s.len() - 2).push(
        Value::Number(a.raw() as i64),
    ).push(Value::Number(0)));
}

/// RESIZE of a chunk to a size it already holds leaves the chunk where it is: the same
/// address and 0 replace the two operands.
pub proof fn law_resize_in_place(old: &ForthState, new: &ForthState, r: ForthResult, cells: nat)
    requires
        data_operations::resize_effect(old, new, r),
        old.stack@.len() >= 2,
        (old.stack@.last().spec_to_number() as u64) as int + 7 <= u64::MAX,
        old.heap.spec_lookup_size(memory_operations::address_of(old.stack@[old.stack@.len() - 2])) == Some(cells),
        cells >= crate::environment::units::div_ceil((old.stack@.last().spec_to_number() as u64) as int, 8),
    ensures
        r is Ok,
        new.stack@ == old.stack@.take(old.stack@.len() - 2).push(
            Value::Number(memory_operations::address_of(old.stack@[old.stack@.len() - 2]).raw() as i64),
        ).push(Value::Number(0)),
{
    let s = old.stack@;
    let a = memory_operations::address_of(s[s.len() - 2]);
    assert(s.take(s.len() - 2) + seq![Value::Number(a.raw() as i64), Value::Number(0)] =~= s.take(s.len() - 2).push(
        Value::Number(a.raw() as i64),
    ).push(Value::Number(0)));
}

/// TYPE, on success, takes its two operands off the stack and writes exactly `count`
/// characters after the output already pending, the `i`-th being the one whose code is the
/// byte `i` places past the address (as the machine reads it once the operands are popped).
pub proof fn law_type_prints_stored_bytes(old: &ForthState, new: &ForthState, r: ForthResult, mid: ForthState)
    requires
        print_operations::type_string_effect(old, new, r),
        string_operations::popped(old, mid, 2),
        r is Ok,
        old.output_stream.spec_keeps(),
    ensures
        ({
            let s = old.stack@;
            let count = s.last().spec_to_number() as u64;
            let address = memory_operations::address_of(s[s.len() - 2]);
            let before = old.output_stream.spec_pending();
            let after = new.output_stream.spec_pending();
            &&& new.stack@ == s.take(s.len() - 2)
            &&& after.len() == before.len() + count
            &&& after.take(before.len() as int) == before
            &&& forall|i: int|
                0 <= i < count ==> (#[trigger] string_operations::byte_at(&mid, address, i) matches Ok(b)
                    && after[before.len() + i] as int == b as int)
        }),
{
    let s = old.stack@;
    let m = choose|m: ForthState| #[trigger] string_operations::popped(old, m, 2)
        && print_operations::type_answer(&m, old, new, r);
    let address = memory_operations::address_of(s[s.len() - 2]);
    let count = s.last().spec_to_number() as u64;
    let before = old.output_stream.spec_pending();
    let after = new.output_stream.spec_pending();
    assert forall|i: int| 0 <= i < count implies (#[trigger] string_operations::byte_at(&mid, address, i) matches Ok(b)
        && after[before.len() + i] as int == b as int) by {
        string_operations::lemma_popped_reads(old, mid, m, 2, address, i);
        assert(string_operations::byte_at(&m, address, i) is Ok);
        assert(after.skip(before.len() as int)[i] == after[before.len() + i]);
    }
}

/// COUNT replaces the address of a counted string by the address one byte further on and
/// the length byte stored at the address (as the machine reads it once the address is
/// popped).
pub proof fn law_count_splits_counted_string(old: &ForthState, new: &ForthState, r: ForthResult, mid: ForthState)
    requires
        string_operations::count_effect(old, new, r),
        string_operations::popped(old, mid, 1),
        r is Ok,
    ensures
        ({
            let s = old.stack@;
            let address = memory_operations::address_of(s.last());
            &&& address.raw() + 1 <= u64::MAX
            &&& string_operations::byte_at(&mid, address, 0) matches Ok(length) && new.stack@ == s.drop_last().push(
                Value::Number((address.raw() + 1) as u64 as i64),
            ).push(Value::Number(length as i64))
        }),
{
    let s = old.stack@;
    let m = choose|m: ForthState| #[trigger] string_operations::popped(old, m, 1)
        && string_operations::count_answer(&m, s, new, r);
    let address = memory_operations::address_of(s.last());
    string_operations::lemma_popped_reads(old, mid, m, 1, address, 0);
    if let Ok(length) = string_operations::byte_at(&mid, address, 0) {
        assert((length as i8) as u8 == length) by (bit_vector);
        assert(length.spec_stack_cells() == seq![Value::Number(length as i64)]);
        assert(s.drop_last().push(Value::Number((address.raw() + 1) as u64 as i64)) + seq![Value::Number(length as i64)]
            =~= s.drop_last().push(Value::Number((address.raw() + 1) as u64 as i64)).push(Value::Number(length as i64)));
    }
}

/// A word defined by CONSTANT gives back the value it was defined with: run with the
/// instruction pointer on the cell after its header, in a machine whose data space is the
/// one CONSTANT left (and maps that cell as data space), it pushes the value CONSTANT popped.
pub proof fn law_constant_gives_back_value(
    old: &ForthState,
    defined: &ForthState,
    width: crate::operations::Width,
    run: &ForthState,
    new: &ForthState,
    r: ForthResult,
)
    requires
        data_operations::constant_effect::<Value>(old, defined, width, Ok(())),
        run.data_space == defined.data_space,
        run.instruction_pointer == Some(Address::spec_from_raw(old.spec_here().raw() + 8)),
        run.spec_access(Address::spec_from_raw(old.spec_here().raw() + 8), Access::Read) == Ok::<MappingType, Error>(
            MappingType::Special { segment: crate::environment::memory::SpecialSegment::DataSpace },
        ),
        data_operations::constant_runtime_effect::<Value>(run, new, r),
    ensures
        new.stack@ == run.stack@.push(old.stack@.last()),
{
    let len: int = old.data_space.spec_length() as int;
    let base = old.data_space.spec_base_address().raw();
    let ip = Address::spec_from_raw(old.spec_here().raw() + 8);
    old.data_space.lemma_view_len();
    defined.data_space.lemma_view_len();
    let v = old.stack@.last();
    assert(old.stack@.skip(old.stack@.len() - 1)[0] == v);
    assert(defined.data_space.view().len() == len + 2);
    assert(defined.data_space.view()[len + 1] == v);
    assert(old.data_room(8));
    assert(base + (len + 8) * 8 <= u64::MAX);
    assert(base + len * 8 + 8 <= u64::MAX) by (nonlinear_arith)
        requires base + (len + 8) * 8 <= u64::MAX, len >= 0;
    assert(old.spec_here().raw() == base + len * 8);
    assert(ip.raw() == base + len * 8 + 8);
    assert((len * 8 + 8) / 8 == len + 1) by (nonlinear_arith);
    assert(run.data_space.spec_base_address().raw() == base);
    assert(run.data_space.spec_length() == len + 2);
    assert(base + len * 8 + 8 < base + (len + 2) * 8) by (nonlinear_arith);
    assert(run.data_space.spec_contains(ip));
    assert(run.data_space.spec_cell_index(ip) == len + 1);
    assert(run.spec_read_as::<Value>(ip) == Ok::<Value, Error>(v));
    assert(v.spec_stack_cells() == seq![v]);
    assert(run.stack@ + seq![v] =~= run.stack@.push(v));
}

} // verus!
