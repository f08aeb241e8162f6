use vstd::prelude::*;
use vstd::string::*;
use crate::compiled_instructions::instruction_compiler::instruction_text;
use crate::environment::memory::{Address, MemoryMapping, MemoryPermissions};
use crate::environment::units::{Bytes, Cells};
use crate::environment::value::{Value, ValueVariant};
use crate::evaluate::definition::{ExecutionToken, is_visible, names_of, text_definition};
use crate::operations::Operation;
use crate::evaluate::execution::Field;
use crate::io::output_stream::{OutputSink, OutputStream, wrote};
use crate::io::tokens::{next_word_text, skip_space, to_uppercase, upper_text, word_end};
use super::debugger::DebugState;
use crate::evaluate::{Error, ExecutionMode, ForthResult, ForthState};
use crate::io::format::{
    decimal, decimal_string, hex, hex_string, left_aligned, push_left_aligned, push_right_aligned, right_aligned,
    string_push,
};
use crate::operations::control_flow_operations::char_of_byte;

verus! {

/// The text of an address: `0x` and its hexadecimal digits.
pub open spec fn address_hex(a: Address) -> Seq<char> {
    hex_string(a.raw() as nat)
}

fn stringify_address(addr: Address) -> (r: String)
    ensures r@ == address_hex(addr),
{
    hex(addr.as_raw())
}

/// The name `xt` is visible under followed by a space, or nothing.
pub open spec fn name_prefix(state: &ForthState, xt: ExecutionToken) -> Seq<char> {
    match state.definitions.spec_name_of(xt) {
        Some(w) => w + seq![' '],
        None => Seq::empty(),
    }
}

/// How the debugger shows an execution token: the number it pushes, the instruction it
/// names, or the name and kind of the word it runs.
pub open spec fn execution_token_text(state: &ForthState, xt: ExecutionToken) -> Seq<char> {
    match xt {
        ExecutionToken::Number(n) => "push "@ + decimal_string(n as int),
        ExecutionToken::Definition(a) => name_prefix(state, xt) + "(defined call @ "@ + address_hex(a) + ")"@,
        ExecutionToken::CompiledInstruction(i) => "["@ + (if i < state.compiled_instructions@.len() {
            instruction_text(state.compiled_instructions@[i as int])
        } else {
            Seq::empty()
        }) + "]"@,
        ExecutionToken::LeafOperation(_) => name_prefix(state, xt) + "(builtin)"@,
    }
}

/// Describes an execution token, with the name it is visible under.
pub fn stringify_execution_token(debug_target: &ForthState, xt: ExecutionToken) -> (r: String)
    requires debug_target.wf(),
    ensures r@ == execution_token_text(debug_target, xt),
{
    let mut word = match debug_target.definitions.debug_only_get_name(xt) {
        Some(w) => {
            let mut w = w;
            string_push(&mut w, ' ');
            w
        },
        None => String::new(),
    };
    assert(word@ == name_prefix(debug_target, xt));
    match xt {
        ExecutionToken::Number(n) => {
            let mut s = String::from_str("push ");
            let d = decimal(n as i128);
            s.append(d.as_str());
            s
        },
        ExecutionToken::Definition(addr) => {
            word.append("(defined call @ ");
            let a = stringify_address(addr);
            word.append(a.as_str());
            word.append(")");
            word
        },
        ExecutionToken::CompiledInstruction(i) => {
            let mut s = String::from_str("[");
            if i < debug_target.compiled_instructions.len() {
                let t = debug_target.compiled_instructions.get(xt).to_string();
                s.append(t.as_str());
            }
            s.append("]");
            s
        },
        ExecutionToken::LeafOperation(_) => {
            word.append("(builtin)");
            word
        },
    }
}

/// The byte at raw address `a`, where it is a valid address.
pub open spec fn byte_at(state: &ForthState, a: int) -> Result<u8, Error> {
    if 0 <= a <= u64::MAX {
        state.spec_read_as::<u8>(Address::spec_from_raw(a))
    } else {
        Err(Error::InvalidAddress)
    }
}

/// The characters of the `n` bytes from raw address `start` on.
pub open spec fn bytes_text(state: &ForthState, start: int, n: nat) -> Result<Seq<char>, Error>
    decreases n,
{
    if n == 0 {
        Ok(Seq::empty())
    } else {
        match bytes_text(state, start, (n - 1) as nat) {
            Err(e) => Err(e),
            Ok(t) => match byte_at(state, start + n - 1) {
                Ok(b) => Ok(t.push(b as char)),
                Err(e) => Err(e),
            },
        }
    }
}

/// A string stored as a length byte followed by its characters.
pub open spec fn length_string_text(state: &ForthState, address: Address) -> Result<Seq<char>, Error> {
    match state.spec_read_as::<u8>(address) {
        Err(e) => Err(e),
        Ok(len) => bytes_text(state, address.raw() + 1, len as nat),
    }
}

/// A string stored as its characters followed by a zero byte, read from raw address `a`.
pub open spec fn null_terminated_text(state: &ForthState, a: int) -> Result<Seq<char>, Error>
    decreases u64::MAX + 1 - a,
{
    if a < 0 || a > u64::MAX {
        Err(Error::InvalidAddress)
    } else {
        match byte_at(state, a) {
            Err(e) => Err(e),
            Ok(b) => if b == 0 {
                Ok(Seq::empty())
            } else {
                match null_terminated_text(state, a + 1) {
                    Ok(t) => Ok(seq![b as char] + t),
                    Err(e) => Err(e),
                }
            },
        }
    }
}

#[verifier::spinoff_prover]
#[verifier::rlimit(40)]
fn read_length_string_at(debug_target: &ForthState, address: Address) -> (r: Result<String, Error>)
    requires debug_target.wf(),
    ensures
        match (r, length_string_text(debug_target, address)) {
            (Ok(s), Ok(t)) => s@ == t,
            (Err(e), Err(f)) => e == f,
            _ => false,
        },
{
    let length: u8 = match debug_target.read::<u8>(address) {
        Ok(l) => l,
        Err(e) => {
            return Err(e);
        },
    };
    let mut buffer = String::new();
    let mut k: u64 = 0;
    while k < length as u64
        invariant
            debug_target.wf(),
            k <= length,
            debug_target.spec_read_as::<u8>(address) == Ok::<u8, Error>(length),
            bytes_text(debug_target, address.raw() + 1, k as nat) == Ok::<Seq<char>, Error>(buffer@),
        decreases length - k,
    {
        let next = match address.checked_plus(Bytes(k + 1)) {
            Ok(a) => a,
            Err(e) => {
                assert(byte_at(debug_target, address.raw() + 1 + k) == Err::<u8, Error>(e));
                assert(bytes_text(debug_target, address.raw() + 1, (k + 1) as nat) == Err::<Seq<char>, Error>(e));
                proof { lemma_bytes_text_err(debug_target, address.raw() + 1, (k + 1) as nat, length as nat); }
                return Err(e);
            },
        };
        let b = match debug_target.read::<u8>(next) {
            Ok(b) => b,
            Err(e) => {
                assert(next == Address::spec_from_raw(address.raw() + 1 + k));
                proof { lemma_bytes_text_err(debug_target, address.raw() + 1, (k + 1) as nat, length as nat); }
                return Err(e);
            },
        };
        assert(next == Address::spec_from_raw(address.raw() + 1 + k));
        string_push(&mut buffer, char_of_byte(b));
        k = k + 1;
    }
    Ok(buffer)
}

/// Once reading the first `n` bytes fails, reading more fails the same way.
proof fn lemma_bytes_text_err(state: &ForthState, start: int, n: nat, m: nat)
    requires
        n <= m,
        bytes_text(state, start, n) is Err,
    ensures
        bytes_text(state, start, m) == bytes_text(state, start, n),
    decreases m - n,
{
    if n < m {
        lemma_bytes_text_err(state, start, n, (m - 1) as nat);
    }
}

fn read_null_terminated_string(debug_target: &ForthState, address: Address) -> (r: Result<String, Error>)
    requires debug_target.wf(),
    ensures
        match (r, null_terminated_text(debug_target, address.raw())) {
            (Ok(s), Ok(t)) => s@ == t,
            (Err(e), Err(f)) => e == f,
            _ => false,
        },
{
    let mut buffer = String::new();
    let mut current = address;
    loop
        invariant
            debug_target.wf(),
            null_terminated_text(debug_target, address.raw()) == match null_terminated_text(debug_target, current.raw()) {
                Ok(t) => Ok(buffer@ + t),
                Err(e) => Err::<Seq<char>, Error>(e),
            },
        decreases u64::MAX - current.raw(),
    {
        let byte = match debug_target.read::<u8>(current) {
            Ok(b) => b,
            Err(e) => {
                return Err(e);
            },
        };
        if byte == 0 {
            assert(buffer@ + Seq::<char>::empty() == buffer@);
            return Ok(buffer);
        }
        let ghost before = buffer@;
        string_push(&mut buffer, char_of_byte(byte));
        match current.checked_plus(Bytes(1)) {
            Ok(a) => {
                proof {
                    match null_terminated_text(debug_target, a.raw()) {
                        Ok(t) => {
                            assert(before + (seq![byte as char] + t) =~= buffer@ + t);
                        },
                        Err(_) => {},
                    }
                }
                current = a;
            },
            Err(e) => {
                assert(null_terminated_text(debug_target, current.raw() + 1) == Err::<Seq<char>, Error>(Error::InvalidAddress));
                return Err(e);
            },
        }
    }
}

/// The formats `X` reads memory in.
#[derive(Clone, Copy, PartialEq, Eq, Structural, Debug)]
pub enum ExamineFormat {
    Instruction,
    Address,
    Number,
    Double,
    Byte,
    UnsignedNumber,
    UnsignedDouble,
    UnsignedByte,
    LengthString,
    NullTerminated,
    Unknown,
}

/// The format a specifier names.
pub open spec fn format_of(f: Seq<char>) -> ExamineFormat {
    if f == "I"@ {
        ExamineFormat::Instruction
    } else if f == "A"@ {
        ExamineFormat::Address
    } else if f == "N"@ {
        ExamineFormat::Number
    } else if f == "D"@ {
        ExamineFormat::Double
    } else if f == "B"@ {
        ExamineFormat::Byte
    } else if f == "UN"@ {
        ExamineFormat::UnsignedNumber
    } else if f == "UD"@ {
        ExamineFormat::UnsignedDouble
    } else if f == "UB"@ {
        ExamineFormat::UnsignedByte
    } else if f == "LS"@ {
        ExamineFormat::LengthString
    } else if f == "S"@ {
        ExamineFormat::NullTerminated
    } else {
        ExamineFormat::Unknown
    }
}

fn parse_format(format: &str) -> (r: ExamineFormat)
    ensures r == format_of(format@),
{
    let f = String::from_str(format);
    if f == String::from_str("I") {
        ExamineFormat::Instruction
    } else if f == String::from_str("A") {
        ExamineFormat::Address
    } else if f == String::from_str("N") {
        ExamineFormat::Number
    } else if f == String::from_str("D") {
        ExamineFormat::Double
    } else if f == String::from_str("B") {
        ExamineFormat::Byte
    } else if f == String::from_str("UN") {
        ExamineFormat::UnsignedNumber
    } else if f == String::from_str("UD") {
        ExamineFormat::UnsignedDouble
    } else if f == String::from_str("UB") {
        ExamineFormat::UnsignedByte
    } else if f == String::from_str("LS") {
        ExamineFormat::LengthString
    } else if f == String::from_str("S") {
        ExamineFormat::NullTerminated
    } else {
        ExamineFormat::Unknown
    }
}

/// The text of a number read from memory, or the read's error.
pub open spec fn number_text<T: ValueVariant>(r: Result<T, Error>, as_int: spec_fn(T) -> int) -> Result<Seq<char>, Error> {
    match r {
        Ok(n) => Ok(decimal_string(as_int(n))),
        Err(e) => Err(e),
    }
}

/// What `X` shows of the memory at `address` in a format (other than `A`): an execution
/// token, a number of some width and signedness, or a string.
pub open spec fn examined_text(state: &ForthState, address: Address, format: ExamineFormat) -> Result<Seq<char>, Error> {
    match format {
        ExamineFormat::Instruction => match state.spec_read_as::<ExecutionToken>(address) {
            Ok(xt) => Ok(execution_token_text(state, xt)),
            Err(e) => Err(e),
        },
        ExamineFormat::Number => number_text(state.spec_read_as::<i64>(address), |n: i64| n as int),
        ExamineFormat::Double => number_text(state.spec_read_as::<i128>(address), |n: i128| n as int),
        ExamineFormat::Byte => number_text(state.spec_read_as::<i8>(address), |n: i8| n as int),
        ExamineFormat::UnsignedNumber => number_text(state.spec_read_as::<u64>(address), |n: u64| n as int),
        ExamineFormat::UnsignedDouble => number_text(state.spec_read_as::<u128>(address), |n: u128| n as int),
        ExamineFormat::UnsignedByte => number_text(state.spec_read_as::<u8>(address), |n: u8| n as int),
        ExamineFormat::LengthString => length_string_text(state, address),
        ExamineFormat::NullTerminated => null_terminated_text(state, address.raw()),
        _ => Ok("Unknown format specifier"@),
    }
}

/// Whether a result and a specified result agree.
pub open spec fn same_text(r: Result<String, Error>, t: Result<Seq<char>, Error>) -> bool {
    match (r, t) {
        (Ok(s), Ok(t)) => s@ == t,
        (Err(e), Err(f)) => e == f,
        _ => false,
    }
}

/// The error that ends the chain of addresses from `address`, following at most `steps`
/// links; `None` when every one of them could be read.
pub open spec fn address_chain_error(state: &ForthState, address: Address, steps: nat) -> Option<Error>
    decreases steps,
{
    if steps == 0 {
        None
    } else {
        match state.spec_read_as::<Address>(address) {
            Err(e) => Some(e),
            Ok(next) => address_chain_error(state, next, (steps - 1) as nat),
        }
    }
}

/// The error that ends following addresses from `address`: the first read that fails, or
/// `InvalidAddress` where `u64::MAX` links all read.
pub open spec fn chain_end(state: &ForthState, address: Address) -> Error {
    match address_chain_error(state, address, u64::MAX as nat) {
        Some(e) => e,
        None => Error::InvalidAddress,
    }
}

/// Follows the chain of addresses from `address` on until a read fails.
fn follow_addresses(debug_target: &ForthState, address: Address) -> (r: Error)
    requires debug_target.wf(),
    ensures
        r == chain_end(debug_target, address),
{
    let mut current = address;
    let mut fuel: u64 = u64::MAX;
    while fuel > 0
        invariant
            debug_target.wf(),
            address_chain_error(debug_target, address, u64::MAX as nat)
                == address_chain_error(debug_target, current, fuel as nat),
        decreases fuel,
    {
        current = match debug_target.read::<Address>(current) {
            Ok(a) => a,
            Err(e) => {
                return e;
            },
        };
        fuel = fuel - 1;
    }
    Error::InvalidAddress
}

fn unsigned_double_text(n: u128) -> (r: String)
    ensures r@ == decimal_string(n as int),
{
    if n <= i128::MAX as u128 {
        decimal(n as i128)
    } else {
        let mut s = decimal((n / 10) as i128);
        let d = decimal((n % 10) as i128);
        s.append(d.as_str());
        proof { lemma_decimal_split(n as nat); }
        s
    }
}

/// Shows the memory at `address` in a format; the format `A` follows addresses, which only
/// ends where a read fails.
fn read_from_address(debug_target: &ForthState, address: Address, format: &str) -> (r: Result<String, Error>)
    requires debug_target.wf(),
    ensures
        format_of(format@) == ExamineFormat::Address ==> r == Err::<String, Error>(chain_end(debug_target, address)),
        format_of(format@) != ExamineFormat::Address ==> same_text(r, examined_text(debug_target, address, format_of(format@))),
{
    let kind = parse_format(format);
    match kind {
        ExamineFormat::Instruction => match debug_target.read::<ExecutionToken>(address) {
            Ok(xt) => Ok(stringify_execution_token(debug_target, xt)),
            Err(e) => Err(e),
        },
        ExamineFormat::Address => Err(follow_addresses(debug_target, address)),
        ExamineFormat::Number => match debug_target.read::<i64>(address) {
            Ok(n) => Ok(decimal(n as i128)),
            Err(e) => Err(e),
        },
        ExamineFormat::Double => match debug_target.read::<i128>(address) {
            Ok(n) => Ok(decimal(n)),
            Err(e) => Err(e),
        },
        ExamineFormat::Byte => match debug_target.read::<i8>(address) {
            Ok(n) => Ok(decimal(n as i128)),
            Err(e) => Err(e),
        },
        ExamineFormat::UnsignedNumber => match debug_target.read::<u64>(address) {
            Ok(n) => Ok(decimal(n as i128)),
            Err(e) => Err(e),
        },
        ExamineFormat::UnsignedDouble => match debug_target.read::<u128>(address) {
            Ok(n) => Ok(unsigned_double_text(n)),
            Err(e) => Err(e),
        },
        ExamineFormat::UnsignedByte => match debug_target.read::<u8>(address) {
            Ok(n) => Ok(decimal(n as i128)),
            Err(e) => Err(e),
        },
        ExamineFormat::LengthString => read_length_string_at(debug_target, address),
        ExamineFormat::NullTerminated => read_null_terminated_string(debug_target, address),
        ExamineFormat::Unknown => Ok(String::from_str("Unknown format specifier")),
    }
}

/// The decimal text of a number of two or more digits is that of its tenth followed by
/// its last digit.
proof fn lemma_decimal_split(n: nat)
    requires n >= 10,
    ensures decimal_string(n as int) == decimal_string((n / 10) as int) + decimal_string((n % 10) as int),
{
    assert(crate::io::format::decimal_digits(n) == crate::io::format::decimal_digits(n / 10).push(
        crate::io::format::digit_char((n % 10) as int),
    ));
    assert(decimal_string((n % 10) as int) == seq![crate::io::format::digit_char((n % 10) as int)]);
    assert(crate::io::format::decimal_digits(n / 10).push(crate::io::format::digit_char((n % 10) as int))
        =~= crate::io::format::decimal_digits(n / 10) + seq![crate::io::format::digit_char((n % 10) as int)]);
}

/// How the debugger names an error.
pub open spec fn error_text(e: Error) -> Seq<char> {
    match e {
        Error::DivisionByZero => "DivisionByZero"@,
        Error::StackUnderflow => "StackUnderflow"@,
        Error::UnknownWord(w) => "UnknownWord(\""@ + w@ + "\")"@,
        Error::InvalidWord => "InvalidWord"@,
        Error::InvalidAddress => "InvalidAddress"@,
        Error::InvalidNumber => "InvalidNumber"@,
        Error::InvalidExecutionToken => "InvalidExecutionToken"@,
        Error::AddressOutOfRange => "AddressOutOfRange"@,
        Error::InsufficientPermissions => "InsufficientPermissions"@,
        Error::NoMoreTokens => "NoMoreTokens"@,
        Error::Exception(n) => "Exception("@ + decimal_string(n as int) + ")"@,
        Error::InvalidSize => "InvalidSize"@,
        Error::InsufficientMemory => "InsufficientMemory"@,
        Error::TokenStreamEmpty => "TokenStreamEmpty"@,
        Error::Halt => "Halt"@,
    }
}

/// Names an error.
pub fn stringify_error(e: &Error) -> (r: String)
    ensures r@ == error_text(*e),
{
    match e {
        Error::DivisionByZero => String::from_str("DivisionByZero"),
        Error::StackUnderflow => String::from_str("StackUnderflow"),
        Error::UnknownWord(w) => {
            let mut s = String::from_str("UnknownWord(\"");
            s.append(w.as_str());
            s.append("\")");
            s
        },
        Error::InvalidWord => String::from_str("InvalidWord"),
        Error::InvalidAddress => String::from_str("InvalidAddress"),
        Error::InvalidNumber => String::from_str("InvalidNumber"),
        Error::InvalidExecutionToken => String::from_str("InvalidExecutionToken"),
        Error::AddressOutOfRange => String::from_str("AddressOutOfRange"),
        Error::InsufficientPermissions => String::from_str("InsufficientPermissions"),
        Error::NoMoreTokens => String::from_str("NoMoreTokens"),
        Error::Exception(n) => {
            let mut s = String::from_str("Exception(");
            let d = decimal(*n as i128);
            s.append(d.as_str());
            s.append(")");
            s
        },
        Error::InvalidSize => String::from_str("InvalidSize"),
        Error::InsufficientMemory => String::from_str("InsufficientMemory"),
        Error::TokenStreamEmpty => String::from_str("TokenStreamEmpty"),
        Error::Halt => String::from_str("Halt"),
    }
}

/// How the debugger shows a cell: a number, or the execution token it holds.
pub open spec fn value_shown(state: &ForthState, v: Value) -> Seq<char> {
    match v {
        Value::Number(n) => decimal_string(n as int),
        Value::ExecutionToken(xt) => execution_token_text(state, xt),
    }
}

fn stringify_value(debug_target: &ForthState, v: Value) -> (r: String)
    requires debug_target.wf(),
    ensures r@ == value_shown(debug_target, v),
{
    match v {
        Value::Number(n) => decimal(n as i128),
        Value::ExecutionToken(xt) => stringify_execution_token(debug_target, xt),
    }
}

/// What a memory listing says a cell is: the start of a definition, or a variable's cell.
pub open spec fn memory_label(state: &ForthState, a: Address) -> Seq<char> {
    match state.definitions.spec_name_of(ExecutionToken::Definition(a)) {
        Some(w) => "definition of "@ + w,
        None => match state.definitions.spec_name_of(ExecutionToken::Number(a.0.0 as i64)) {
            Some(w) => "memory of "@ + w,
            None => Seq::empty(),
        },
    }
}

/// The marker of the cell the instruction pointer points at.
pub open spec fn ip_marker(state: &ForthState, a: Address) -> Seq<char> {
    if state.instruction_pointer == Some(a) {
        " ip -> "@
    } else {
        "       "@
    }
}

/// One line of a memory listing.
pub open spec fn memory_line_text(state: &ForthState, a: Address, v: Value) -> Seq<char> {
    left_aligned(address_hex(a), 7) + " | "@ + ip_marker(state, a) + " "@ + left_aligned(value_shown(state, v), 30)
        + " "@ + memory_label(state, a) + seq!['\n']
}

/// The listing of the cells from `a` on that can be read, up to `max`.
pub open spec fn memory_listing_text(state: &ForthState, a: Address, max: Option<Address>) -> Seq<char>
    decreases u64::MAX - a.raw(),
{
    match state.spec_read_as::<Value>(a) {
        Err(_) => Seq::empty(),
        Ok(v) => if max matches Some(m) && !(a.raw() < m.raw()) {
            Seq::empty()
        } else if a.raw() + 8 <= u64::MAX && a.raw() >= 0 {
            memory_line_text(state, a, v) + memory_listing_text(state, Address::spec_from_raw(a.raw() + 8), max)
        } else {
            memory_line_text(state, a, v)
        },
    }
}

fn memory_label_string(debug_target: &ForthState, a: Address) -> (r: String)
    requires debug_target.wf(),
    ensures r@ == memory_label(debug_target, a),
{
    match debug_target.definitions.debug_only_get_name(ExecutionToken::Definition(a)) {
        Some(w) => {
            let mut s = String::from_str("definition of ");
            s.append(w.as_str());
            s
        },
        None => match debug_target.definitions.debug_only_get_name(ExecutionToken::Number(a.as_raw() as i64)) {
            Some(w) => {
                let mut s = String::from_str("memory of ");
                s.append(w.as_str());
                s
            },
            None => String::new(),
        },
    }
}

fn memory_line(debug_target: &ForthState, a: Address, v: Value) -> (r: String)
    requires debug_target.wf(),
    ensures r@ == memory_line_text(debug_target, a, v),
{
    let mut s = String::new();
    let addr = stringify_address(a);
    push_left_aligned(&mut s, addr.as_str(), 7);
    s.append(" | ");
    let at_ip = match debug_target.instruction_pointer {
        Some(ip) => ip.equals(a),
        None => false,
    };
    s.append(if at_ip { " ip -> " } else { "       " });
    s.append(" ");
    let shown = stringify_value(debug_target, v);
    push_left_aligned(&mut s, shown.as_str(), 30);
    s.append(" ");
    let label = memory_label_string(debug_target, a);
    s.append(label.as_str());
    string_push(&mut s, '\n');
    s
}

/// Lists the cells from `address` on that can be read, up to `optional_max`.
pub fn memory_listing(debug_target: &ForthState, address: Address, optional_max: Option<Address>) -> (r: String)
    requires debug_target.wf(),
    ensures r@ == memory_listing_text(debug_target, address, optional_max),
{
    let mut s = String::new();
    let mut current = address;
    loop
        invariant
            debug_target.wf(),
            memory_listing_text(debug_target, address, optional_max) == s@ + memory_listing_text(
                debug_target,
                current,
                optional_max,
            ),
        decreases u64::MAX - current.raw(),
    {
        let value = match debug_target.read::<Value>(current) {
            Ok(v) => v,
            Err(_) => {
                assert(s@ + Seq::<char>::empty() =~= s@);
                return s;
            },
        };
        match optional_max {
            Some(max) => if !current.less_than(max) {
                assert(s@ + Seq::<char>::empty() =~= s@);
                return s;
            },
            None => {},
        }
        let ghost before = s@;
        let line = memory_line(debug_target, current, value);
        s.append(line.as_str());
        match current.checked_plus_cell(Cells(1)) {
            Ok(next) => {
                assert(before + (line@ + memory_listing_text(debug_target, next, optional_max)) =~= s@
                    + memory_listing_text(debug_target, next, optional_max));
                current = next;
            },
            Err(_) => {
                return s;
            },
        }
    }
}

/// Writes the listing of the cells from `address` on that can be read, up to `optional_max`.
pub fn print_memory_formatted(
    debug_target: &ForthState,
    address: Address,
    optional_max: Option<Address>,
    output: &mut OutputSink,
)
    requires debug_target.wf(),
    ensures wrote(old(output), final(output), memory_listing_text(debug_target, address, optional_max)),
{
    let listing = memory_listing(debug_target, address, optional_max);
    output.write(listing.as_str());
}

/// The listing of the first `n` cells of a stack, each with its position.
pub open spec fn stack_listing_text(state: &ForthState, values: Seq<Value>, n: nat) -> Seq<char>
    decreases n,
{
    if n == 0 {
        Seq::empty()
    } else {
        stack_listing_text(state, values, (n - 1) as nat) + right_aligned(hex_string((n - 1) as nat), 10) + " | "@
            + value_shown(state, values[n - 1]) + seq!['\n']
    }
}

/// Lists the first `n` cells of a stack.
pub fn stack_listing(debug_target: &ForthState, values: &Vec<Value>, n: usize) -> (r: String)
    requires
        debug_target.wf(),
        n <= values@.len(),
    ensures r@ == stack_listing_text(debug_target, values@, n as nat),
{
    let mut s = String::new();
    let mut i: usize = 0;
    while i < n
        invariant
            debug_target.wf(),
            i <= n <= values@.len(),
            s@ == stack_listing_text(debug_target, values@, i as nat),
        decreases n - i,
    {
        let position = hex(i as u64);
        push_right_aligned(&mut s, position.as_str(), 10);
        s.append(" | ");
        let shown = stringify_value(debug_target, values[i]);
        s.append(shown.as_str());
        string_push(&mut s, '\n');
        i = i + 1;
    }
    s
}

/// Writes the listing of the first `n` cells of a stack.
pub fn print_stack_formatted(debug_target: &ForthState, values: &Vec<Value>, n: usize, output: &mut OutputSink)
    requires
        debug_target.wf(),
        n <= values@.len(),
    ensures wrote(old(output), final(output), stack_listing_text(debug_target, values@, n as nat)),
{
    let listing = stack_listing(debug_target, values, n);
    output.write(listing.as_str());
}

/// A rule between the parts of the state view.
pub open spec fn rule_line() -> Seq<char> {
    "------------------------------------------------------"@ + seq!['\n']
}

/// The banner around an error in the state view.
pub open spec fn banner_line() -> Seq<char> {
    "######################################################"@ + seq!['\n']
}

/// The part of the state view that shows the error being debugged.
pub open spec fn error_block(error: Option<Error>) -> Seq<char> {
    match error {
        Some(e) => banner_line() + "ENCOUNTERED ERROR "@ + error_text(e) + seq!['\n'] + banner_line() + seq!['\n'],
        None => Seq::empty(),
    }
}

/// The first `n` breakpoints, each after a space.
pub open spec fn breakpoints_text(breakpoints: Seq<Address>, n: nat) -> Seq<char>
    decreases n,
{
    if n == 0 {
        Seq::empty()
    } else {
        breakpoints_text(breakpoints, (n - 1) as nat) + " "@ + address_hex(breakpoints[n - 1])
    }
}

/// The part of the state view that lists the breakpoints, where there are any.
pub open spec fn breakpoints_block(breakpoints: Seq<Address>) -> Seq<char> {
    if breakpoints.len() > 0 {
        seq!['\n'] + right_aligned("breakpoints"@, 20) + ":"@ + breakpoints_text(breakpoints, breakpoints.len())
            + seq!['\n'] + rule_line()
    } else {
        Seq::empty()
    }
}

/// A named field of the state view.
pub open spec fn field_line(word: Seq<char>, value: Seq<char>) -> Seq<char> {
    right_aligned(word, 20) + ": "@ + value + seq!['\n']
}

pub open spec fn mode_text(mode: ExecutionMode) -> Seq<char> {
    match mode {
        ExecutionMode::Compile => "compiling"@,
        ExecutionMode::Interpret => "interpreting"@,
    }
}

pub open spec fn current_instruction_text(state: &ForthState) -> Seq<char> {
    match state.current_instruction {
        Some(xt) => execution_token_text(state, xt),
        None => "(awaiting instruction)"@,
    }
}

pub open spec fn instruction_pointer_text(state: &ForthState) -> Seq<char> {
    match state.instruction_pointer {
        Some(a) => address_hex(a),
        None => "(awaiting input)"@,
    }
}

/// Where the memory around the instruction pointer is listed from: three cells before it,
/// where that cell can be read.
pub open spec fn listing_start(state: &ForthState, ip: Address) -> Address {
    if ip.raw() >= 24 && state.spec_read_as::<Value>(Address::spec_from_raw(ip.raw() - 24)) is Ok {
        Address::spec_from_raw(ip.raw() - 24)
    } else {
        ip
    }
}

/// Where the memory around the instruction pointer is listed to: four cells after it.
pub open spec fn listing_end(ip: Address) -> Option<Address> {
    if ip.raw() + 32 <= u64::MAX {
        Some(Address::spec_from_raw(ip.raw() + 32))
    } else {
        None
    }
}

/// The part of the state view that lists the memory around the instruction pointer.
pub open spec fn memory_block(state: &ForthState) -> Seq<char> {
    match state.instruction_pointer {
        Some(ip) => "memory:\n"@ + seq!['\n'] + memory_listing_text(state, listing_start(state, ip), listing_end(ip))
            + rule_line(),
        None => Seq::empty(),
    }
}

/// The part of the state view that lists the first ten cells of the data stack.
pub open spec fn stack_block(state: &ForthState) -> Seq<char> {
    let n = if state.stack@.len() < 10 {
        state.stack@.len()
    } else {
        10
    };
    "stack:\n"@ + seq!['\n'] + stack_listing_text(state, state.stack@, n) + rule_line()
}

/// The debugger's view of a machine: the error being debugged, the breakpoints, the
/// execution mode, current instruction and instruction pointer, the memory around the
/// instruction pointer and the data stack.
pub open spec fn state_view_text(error: Option<Error>, breakpoints: Seq<Address>, state: &ForthState) -> Seq<char> {
    error_block(error) + rule_line() + breakpoints_block(breakpoints) + field_line(
        "execution mode"@,
        mode_text(state.spec_execution_mode()),
    ) + field_line("current instruction"@, current_instruction_text(state)) + field_line(
        "instruction pointer"@,
        instruction_pointer_text(state),
    ) + rule_line() + memory_block(state) + stack_block(state)
}

fn push_line(s: &mut String, text: &str)
    ensures final(s)@ == old(s)@ + text@ + seq!['\n'],
{
    s.append(text);
    string_push(s, '\n');
}

fn push_field(s: &mut String, word: &str, value: &str)
    ensures final(s)@ == old(s)@ + field_line(word@, value@),
{
    push_right_aligned(s, word, 20);
    s.append(": ");
    s.append(value);
    string_push(s, '\n');
    assert(s@ =~= old(s)@ + field_line(word@, value@));
}

fn error_block_string(error: &Option<Error>) -> (r: String)
    ensures r@ == error_block(*error),
{
    let mut s = String::new();
    match error {
        Some(e) => {
            push_line(&mut s, "######################################################");
            s.append("ENCOUNTERED ERROR ");
            let t = stringify_error(e);
            push_line(&mut s, t.as_str());
            push_line(&mut s, "######################################################");
            string_push(&mut s, '\n');
            assert(s@ =~= error_block(*error));
        },
        None => {},
    }
    s
}

fn breakpoints_block_string(breakpoints: &Vec<Address>) -> (r: String)
    ensures r@ == breakpoints_block(breakpoints@),
{
    let mut s = String::new();
    if breakpoints.len() > 0 {
        string_push(&mut s, '\n');
        push_right_aligned(&mut s, "breakpoints", 20);
        s.append(":");
        let ghost head = s@;
        let mut i: usize = 0;
        while i < breakpoints.len()
            invariant
                i <= breakpoints@.len(),
                s@ == head + breakpoints_text(breakpoints@, i as nat),
            decreases breakpoints@.len() - i,
        {
            s.append(" ");
            let a = stringify_address(breakpoints[i]);
            s.append(a.as_str());
            i = i + 1;
            assert(s@ =~= head + breakpoints_text(breakpoints@, i as nat));
        }
        string_push(&mut s, '\n');
        push_line(&mut s, "------------------------------------------------------");
        assert(s@ =~= breakpoints_block(breakpoints@));
    }
    s
}

fn memory_block_string(debug_target: &ForthState) -> (r: String)
    requires debug_target.wf(),
    ensures r@ == memory_block(debug_target),
{
    let mut s = String::new();
    match debug_target.instruction_pointer {
        Some(ip) => {
            push_line(&mut s, "memory:\n");
            let start = match ip.checked_minus_cell(Cells(3)) {
                Ok(before) => if debug_target.read::<Value>(before).is_ok() {
                    before
                } else {
                    ip
                },
                Err(_) => ip,
            };
            let end = match ip.checked_plus_cell(Cells(4)) {
                Ok(after) => Some(after),
                Err(_) => None,
            };
            assert(start == listing_start(debug_target, ip));
            assert(end == listing_end(ip));
            let listing = memory_listing(debug_target, start, end);
            s.append(listing.as_str());
            push_line(&mut s, "------------------------------------------------------");
            assert(s@ =~= memory_block(debug_target));
        },
        None => {},
    }
    s
}

fn stack_block_string(debug_target: &ForthState) -> (r: String)
    requires debug_target.wf(),
    ensures r@ == stack_block(debug_target),
{
    let mut s = String::new();
    push_line(&mut s, "stack:\n");
    let values = debug_target.stack.debug_only_get_vec();
    let n = if values.len() < 10 {
        values.len()
    } else {
        10
    };
    let listing = stack_listing(debug_target, values, n);
    s.append(listing.as_str());
    push_line(&mut s, "------------------------------------------------------");
    assert(s@ =~= stack_block(debug_target));
    s
}

/// The debugger's view of a machine.
pub fn state_view(error: &Option<Error>, breakpoints: &Vec<Address>, debug_target: &ForthState) -> (r: String)
    requires debug_target.wf(),
    ensures r@ == state_view_text(*error, breakpoints@, debug_target),
{
    let mut s = error_block_string(error);
    push_line(&mut s, "------------------------------------------------------");
    let b = breakpoints_block_string(breakpoints);
    s.append(b.as_str());
    let mode = match debug_target.execution_mode() {
        ExecutionMode::Compile => String::from_str("compiling"),
        ExecutionMode::Interpret => String::from_str("interpreting"),
    };
    push_field(&mut s, "execution mode", mode.as_str());
    let current = match debug_target.current_instruction {
        Some(xt) => stringify_execution_token(debug_target, xt),
        None => String::from_str("(awaiting instruction)"),
    };
    push_field(&mut s, "current instruction", current.as_str());
    let pointer = match debug_target.instruction_pointer {
        Some(a) => stringify_address(a),
        None => String::from_str("(awaiting input)"),
    };
    push_field(&mut s, "instruction pointer", pointer.as_str());
    push_line(&mut s, "------------------------------------------------------");
    let m = memory_block_string(debug_target);
    s.append(m.as_str());
    let st = stack_block_string(debug_target);
    s.append(st.as_str());
    assert(s@ =~= state_view_text(*error, breakpoints@, debug_target));
    s
}

/// The commands the debugger understands.
#[derive(Clone, Copy, PartialEq, Eq, Structural, Debug)]
pub enum DebugOperation {
    ViewMemoryRegion,
    ViewMemoryMap,
    ExamineMemory,
    ViewState,
    AllCommands,
    AddBreak,
    Step,
    Continue,
    Exit,
    See,
}

/// The debug commands with their names.
pub const DEBUG_OPERATIONS: [(&'static str, DebugOperation); 10] = [
    ("XVIEW", DebugOperation::ViewMemoryRegion),
    ("VMMAP", DebugOperation::ViewMemoryMap),
    ("X", DebugOperation::ExamineMemory),
    ("STATE", DebugOperation::ViewState),
    ("ALL_COMMANDS", DebugOperation::AllCommands),
    ("SET_BREAK", DebugOperation::AddBreak),
    ("STEP", DebugOperation::Step),
    ("CONTINUE", DebugOperation::Continue),
    ("EXIT", DebugOperation::Exit),
    ("SEE", DebugOperation::See),
];

/// `new` is the debugger `old` after it wrote `text`; nothing else changed.
pub open spec fn emits(old: &DebugState, new: &DebugState, text: Seq<char>) -> bool {
    &&& wrote(&old.forth.state.output_stream, &new.forth.state.output_stream, text)
    &&& new.forth.state.unchanged_except(&old.forth.state, set![Field::Output])
    &&& same_settings(old, new)
}

/// The debugger's settings and commands are as in `old`.
pub open spec fn same_settings(old: &DebugState, new: &DebugState) -> bool {
    &&& new.debugging == old.debugging
    &&& new.stepping == old.stepping
    &&& new.breakpoints@ == old.breakpoints@
    &&& new.current_error == old.current_error
    &&& new.debug_operations@ == old.debug_operations@
}

fn emit(debugger_state: &mut DebugState, text: &str)
    requires old(debugger_state).wf(),
    ensures
        final(debugger_state).wf(),
        emits(old(debugger_state), final(debugger_state), text@),
{
    debugger_state.forth.state.output_stream.write(text);
}

fn emit_line(debugger_state: &mut DebugState, text: &str)
    requires old(debugger_state).wf(),
    ensures
        final(debugger_state).wf(),
        emits(old(debugger_state), final(debugger_state), text@ + seq!['\n']),
{
    debugger_state.forth.state.output_stream.writeln(text);
    assert(old(debugger_state).forth.state.output_stream.spec_pending() + text@ + seq!['\n'] =~= old(
        debugger_state,
    ).forth.state.output_stream.spec_pending() + (text@ + seq!['\n']));
}

/// What popping an address off a stack gives.
pub open spec fn popped_address(stack: Seq<Value>) -> Result<Address, Error> {
    if stack.len() >= 1 {
        Address::spec_from_stack(stack.skip(stack.len() - 1))
    } else {
        Err(Error::StackUnderflow)
    }
}

/// What `view_state` does to the debugger.
pub open spec fn view_state_effect(old: &DebugState, new: &DebugState, debug_target: &ForthState) -> bool {
    &&& (new.wf())
    &&& (emits(
                old,
                new,
                state_view_text(old.current_error, old.breakpoints@, debug_target),
            ))
}

/// Shows the debugged machine's state.
pub fn view_state(debugger_state: &mut DebugState, debug_target: &ForthState)
    requires
        old(debugger_state).wf(),
        debug_target.wf(),
    ensures
        view_state_effect(old(debugger_state), final(debugger_state), debug_target),
{
    let text = state_view(&debugger_state.current_error, &debugger_state.breakpoints, debug_target);
    emit(debugger_state, text.as_str());
}

/// The text of a mapping's permissions.
pub open spec fn permissions_text(p: MemoryPermissions) -> Seq<char> {
    seq![
        if p.read { 'r' } else { '_' },
        if p.write { 'w' } else { '_' },
        if p.execute { 'x' } else { '_' },
    ]
}

/// A mapping's name, or nothing.
pub open spec fn mapping_label(m: MemoryMapping) -> Seq<char> {
    match m.name {
        Some(n) => n@,
        None => Seq::empty(),
    }
}

/// The lines describing the first `n` mappings.
pub open spec fn memory_map_lines(mappings: Seq<MemoryMapping>, n: nat) -> Seq<char>
    decreases n,
{
    if n == 0 {
        Seq::empty()
    } else {
        memory_map_lines(mappings, (n - 1) as nat) + address_hex(mappings[n - 1].base) + "   "@ + permissions_text(
            mappings[n - 1].permissions,
        ) + "  | "@ + mapping_label(mappings[n - 1]) + seq!['\n']
    }
}

fn mapping_label_str(m: &MemoryMapping) -> (r: &'static str)
    ensures r@ == mapping_label(*m),
{
    proof {
        reveal_strlit("");
    }
    match m.name {
        Some(n) => n,
        None => "",
    }
}

/// What `view_memory_map` does to the debugger.
pub open spec fn view_memory_map_effect(old: &DebugState, new: &DebugState, debug_target: &ForthState) -> bool {
    &&& (new.wf())
    &&& (emits(
                old,
                new,
                "memory mapping:"@ + seq!['\n'] + memory_map_lines(
                    debug_target.spec_memory_map(),
                    debug_target.spec_memory_map().len(),
                ),
            ))
}

/// Lists the debugged machine's memory mappings.
pub fn view_memory_map(debugger_state: &mut DebugState, debug_target: &ForthState)
    requires
        old(debugger_state).wf(),
        debug_target.wf(),
    ensures
        view_memory_map_effect(old(debugger_state), final(debugger_state), debug_target),
{
    let entries = debug_target.memory_map.get_entries();
    let mut s = String::from_str("memory mapping:");
    string_push(&mut s, '\n');
    let ghost head = s@;
    let mut i: usize = 0;
    while i < entries.len()
        invariant
            i <= entries@.len(),
            entries@ == debug_target.spec_memory_map(),
            s@ == head + memory_map_lines(entries@, i as nat),
        decreases entries@.len() - i,
    {
        let base = stringify_address(entries[i].base);
        s.append(base.as_str());
        s.append("   ");
        let p = entries[i].permissions.to_string();
        s.append(p.as_str());
        s.append("  | ");
        s.append(mapping_label_str(&entries[i]));
        string_push(&mut s, '\n');
        i = i + 1;
        assert(s@ =~= head + memory_map_lines(entries@, i as nat));
    }
    assert(s@ =~= "memory mapping:"@ + seq!['\n'] + memory_map_lines(entries@, entries@.len()));
    emit(debugger_state, s.as_str());
}

/// The first of the mappings from position `i` on whose upper-cased name is `label`.
pub open spec fn mapping_named(mappings: Seq<MemoryMapping>, label: Seq<char>, i: nat) -> Option<MemoryMapping>
    decreases mappings.len() - i,
{
    if i >= mappings.len() {
        None
    } else if upper_text(mapping_label(mappings[i as int])) == label {
        Some(mappings[i as int])
    } else {
        mapping_named(mappings, label, i + 1)
    }
}

/// What `XVIEW` lists for a label: the memory of the first mapping with that name.
pub open spec fn region_text(state: &ForthState, label: Seq<char>) -> Seq<char> {
    match mapping_named(state.spec_memory_map(), label, 0) {
        Some(m) => memory_listing_text(state, m.base, None),
        None => Seq::empty(),
    }
}

/// What `view_memory_region` does to the debugger, and what it answers.
pub open spec fn view_memory_region_effect(old: &DebugState, new: &DebugState, debug_target: &ForthState, r: ForthResult) -> bool {
    &&& (new.wf())
    &&& (new.forth.state.unchanged_except(&old.forth.state, set![Field::Input, Field::Output]))
    &&& (same_settings(old, new))
    &&& (match next_word_text(old.forth.state.input_stream.spec_rest()) {
                Err(e) => r == Err::<(), Error>(e) && wrote(
                    &old.forth.state.output_stream,
                    &new.forth.state.output_stream,
                    "viewing memory region"@ + seq!['\n'],
                ),
                Ok(label) => r is Ok && wrote(
                    &old.forth.state.output_stream,
                    &new.forth.state.output_stream,
                    "viewing memory region"@ + seq!['\n'] + region_text(debug_target, label),
                ),
            })
}

/// Reads a mapping's name from the debugger's input and lists the memory of the first
/// mapping of the debugged machine with that name.
pub fn view_memory_region(debugger_state: &mut DebugState, debug_target: &ForthState) -> (r: ForthResult)
    requires
        old(debugger_state).wf(),
        debug_target.wf(),
    ensures
        view_memory_region_effect(old(debugger_state), final(debugger_state), debug_target, r),
{
    emit_line(debugger_state, "viewing memory region");
    let label = match debugger_state.forth.state.input_stream.next_word() {
        Ok(l) => l,
        Err(e) => {
            return Err(e);
        },
    };
    let listing = match find_mapping(debug_target, &label) {
        Some(base) => memory_listing(debug_target, base, None),
        None => String::new(),
    };
    emit(debugger_state, listing.as_str());
    assert(old(debugger_state).forth.state.output_stream.spec_pending() + ("viewing memory region"@ + seq!['\n'])
        + region_text(debug_target, label@) =~= old(debugger_state).forth.state.output_stream.spec_pending() + (
    "viewing memory region"@ + seq!['\n'] + region_text(debug_target, label@)));
    Ok(())
}

/// The base of the first mapping whose upper-cased name is `label`.
fn find_mapping(debug_target: &ForthState, label: &String) -> (r: Option<Address>)
    ensures
        match mapping_named(debug_target.spec_memory_map(), label@, 0) {
            Some(m) => r == Some(m.base),
            None => r is None,
        },
{
    let entries = debug_target.memory_map.get_entries();
    let mut i: usize = 0;
    while i < entries.len()
        invariant
            i <= entries@.len(),
            entries@ == debug_target.spec_memory_map(),
            mapping_named(entries@, label@, 0) == mapping_named(entries@, label@, i as nat),
        decreases entries@.len() - i,
    {
        let name = to_uppercase(mapping_label_str(&entries[i]));
        if *label == name {
            return Some(entries[i].base);
        }
        i = i + 1;
    }
    None
}

/// What `examine_memory` does to the debugger, and what it answers.
pub open spec fn examine_memory_effect(old: &DebugState, new: &DebugState, debug_target: &ForthState, r: ForthResult) -> bool {
    &&& (new.wf())
    &&& (new.forth.state.unchanged_except(
                &old.forth.state,
                set![Field::Stack, Field::Input, Field::Output],
            ))
    &&& (same_settings(old, new))
    &&& (match popped_address(old.forth.state.stack@) {
                Err(e) => r == Err::<(), Error>(e),
                Ok(address) => match next_word_text(old.forth.state.input_stream.spec_rest()) {
                    Err(e) => r == Err::<(), Error>(e),
                    Ok(format) => if format_of(format) == ExamineFormat::Address {
                        r == Err::<(), Error>(chain_end(debug_target, address))
                    } else {
                        match examined_text(debug_target, address, format_of(format)) {
                            Err(e) => r == Err::<(), Error>(e),
                            Ok(text) => r is Ok && wrote(
                                &old.forth.state.output_stream,
                                &new.forth.state.output_stream,
                                text + seq!['\n'],
                            ),
                        }
                    },
                },
            })
    &&& (r is Err ==> new.forth.state.output_stream == old.forth.state.output_stream)
}

/// Pops an address off the debugger's stack, reads a format from its input, and shows the
/// debugged machine's memory at that address in that format.
pub fn examine_memory(debugger_state: &mut DebugState, debug_target: &ForthState) -> (r: ForthResult)
    requires
        old(debugger_state).wf(),
        debug_target.wf(),
    ensures
        examine_memory_effect(old(debugger_state), final(debugger_state), debug_target, r),
{
    let address = match debugger_state.forth.state.stack.pop::<Address>() {
        Ok(a) => a,
        Err(e) => {
            return Err(e);
        },
    };
    let format = match debugger_state.forth.state.input_stream.next_word() {
        Ok(f) => f,
        Err(e) => {
            return Err(e);
        },
    };
    let text = match read_from_address(debug_target, address, format.as_str()) {
        Ok(t) => t,
        Err(e) => {
            return Err(e);
        },
    };
    emit_line(debugger_state, text.as_str());
    Ok(())
}

/// The line of the command list for definition `i`.
pub open spec fn command_line(state: &ForthState, i: int) -> Seq<char> {
    let definition = state.definitions.spec_definitions()[i];
    left_aligned(state.definitions.spec_names()[i], 15) + ": "@ + left_aligned(
        if definition.immediate {
            "immediate"@
        } else {
            Seq::empty()
        },
        10,
    ) + " "@ + execution_token_text(state, definition.execution_token) + seq!['\n']
}

/// The command list for the visible definitions among the first `n`.
pub open spec fn commands_text(state: &ForthState, n: nat) -> Seq<char>
    decreases n,
{
    if n == 0 {
        Seq::empty()
    } else {
        commands_text(state, (n - 1) as nat) + if is_visible(state.definitions.spec_names(), n - 1) {
            command_line(state, n - 1)
        } else {
            Seq::empty()
        }
    }
}

/// What `all_commands` does to the debugger.
pub open spec fn all_commands_effect(old: &DebugState, new: &DebugState, debug_target: &ForthState) -> bool {
    &&& (new.wf())
    &&& (emits(
                old,
                new,
                commands_text(debug_target, debug_target.definitions.spec_definitions().len()),
            ))
}

/// Lists every visible word of the debugged machine, whether it is immediate, and what it runs.
pub fn all_commands(debugger_state: &mut DebugState, debug_target: &ForthState)
    requires
        old(debugger_state).wf(),
        debug_target.wf(),
    ensures
        all_commands_effect(old(debugger_state), final(debugger_state), debug_target),
{
    let names = debug_target.definitions.debug_only_get_nametag_map();
    let mut s = String::new();
    let mut i: usize = 0;
    proof {
        assert(names_of(names@).len() == names@.len());
    }
    while i < names.len()
        invariant
            debug_target.wf(),
            i <= names@.len(),
            names_of(names@) == debug_target.definitions.spec_names(),
            names@.len() == debug_target.definitions.spec_definitions().len(),
            s@ == commands_text(debug_target, i as nat),
        decreases names@.len() - i,
    {
        if debug_target.definitions.is_visible_at(i) {
            let definition = match debug_target.definitions.get_by_index(i) {
                Ok(d) => d,
                Err(_) => {
                    return;
                },
            };
            assert(names@[i as int]@ == debug_target.definitions.spec_names()[i as int]);
            push_left_aligned(&mut s, names[i].as_str(), 15);
            s.append(": ");
            push_left_aligned(&mut s, if definition.immediate { "immediate" } else { "" }, 10);
            s.append(" ");
            let t = stringify_execution_token(debug_target, definition.execution_token);
            s.append(t.as_str());
            string_push(&mut s, '\n');
            proof {
                reveal_strlit("");
            }
        }
        i = i + 1;
        assert(s@ =~= commands_text(debug_target, i as nat));
    }
    emit(debugger_state, s.as_str());
}

/// What `add_break` does to the debugger, and what it answers.
pub open spec fn add_break_effect(old: &DebugState, new: &DebugState, r: ForthResult) -> bool {
    &&& (new.wf())
    &&& (new.forth.state.unchanged_except(
                &old.forth.state,
                set![Field::Stack, Field::Output],
            ))
    &&& (match popped_address(old.forth.state.stack@) {
                Err(e) => r == Err::<(), Error>(e) && new.breakpoints@ == old.breakpoints@ && new.forth.state.output_stream == old.forth.state.output_stream,
                Ok(a) => r is Ok && new.breakpoints@ == old.breakpoints@.push(a)
                    && wrote(
                    &old.forth.state.output_stream,
                    &new.forth.state.output_stream,
                    "Set breakpoint @ "@ + address_hex(a) + seq!['\n'],
                ),
            })
    &&& (new.debugging == old.debugging)
    &&& (new.stepping == old.stepping)
    &&& (new.current_error == old.current_error)
    &&& (new.debug_operations@ == old.debug_operations@)
}

/// Pops an address off the debugger's stack and sets a breakpoint there.
pub fn add_break(debugger_state: &mut DebugState) -> (r: ForthResult)
    requires old(debugger_state).wf(),
    ensures
        add_break_effect(old(debugger_state), final(debugger_state), r),
{
    let address = match debugger_state.forth.state.stack.pop::<Address>() {
        Ok(a) => a,
        Err(e) => {
            return Err(e);
        },
    };
    debugger_state.breakpoints.push(address);
    let mut s = String::from_str("Set breakpoint @ ");
    let a = stringify_address(address);
    s.append(a.as_str());
    emit_line(debugger_state, s.as_str());
    Ok(())
}

/// What `step` does to the debugger.
pub open spec fn step_effect(old: &DebugState, new: &DebugState) -> bool {
    &&& (new.wf())
    &&& (new.stepping)
    &&& (!new.debugging)
    &&& (new.current_error is None)
    &&& (new.breakpoints@ == old.breakpoints@)
    &&& (new.debug_operations@ == old.debug_operations@)
    &&& (new.forth.state.unchanged_except(&old.forth.state, set![Field::Output]))
    &&& (wrote(
                &old.forth.state.output_stream,
                &new.forth.state.output_stream,
                "Stepping..."@ + seq!['\n'],
            ))
}

/// Runs the debugged machine one step further before debugging again.
pub fn step(debugger_state: &mut DebugState)
    requires old(debugger_state).wf(),
    ensures
        step_effect(old(debugger_state), final(debugger_state)),
{
    emit_line(debugger_state, "Stepping...");
    debugger_state.stepping = true;
    debugger_state.debugging = false;
    debugger_state.current_error = None;
}

/// What `do_continue` does to the debugger.
pub open spec fn do_continue_effect(old: &DebugState, new: &DebugState) -> bool {
    &&& (new.wf())
    &&& (!new.stepping)
    &&& (!new.debugging)
    &&& (new.current_error is None)
    &&& (new.breakpoints@ == old.breakpoints@)
    &&& (new.debug_operations@ == old.debug_operations@)
    &&& (new.forth.state.unchanged_except(&old.forth.state, set![Field::Output]))
    &&& (wrote(
                &old.forth.state.output_stream,
                &new.forth.state.output_stream,
                "Continuing"@ + seq!['\n'],
            ))
}

/// Lets the debugged machine run until a breakpoint.
pub fn do_continue(debugger_state: &mut DebugState)
    requires old(debugger_state).wf(),
    ensures
        do_continue_effect(old(debugger_state), final(debugger_state)),
{
    emit_line(debugger_state, "Continuing");
    debugger_state.stepping = false;
    debugger_state.debugging = false;
    debugger_state.current_error = None;
}

/// What `do_exit` does to the debugger.
pub open spec fn do_exit_effect(old: &DebugState, new: &DebugState) -> bool {
    &&& (new.wf())
    &&& (!new.stepping)
    &&& (!new.debugging)
    &&& (new.current_error == match old.current_error {
                Some(e) => Some(e),
                None => Some(Error::Halt),
            })
    &&& (new.breakpoints@ == old.breakpoints@)
    &&& (new.debug_operations@ == old.debug_operations@)
    &&& (new.forth.state.unchanged_except(&old.forth.state, set![Field::Output]))
    &&& (wrote(
                &old.forth.state.output_stream,
                &new.forth.state.output_stream,
                "Exiting..."@ + seq!['\n'],
            ))
}

/// Stops debugging; the debugged machine stops with the error being debugged, or halts.
pub fn do_exit(debugger_state: &mut DebugState)
    requires old(debugger_state).wf(),
    ensures
        do_exit_effect(old(debugger_state), final(debugger_state)),
{
    emit_line(debugger_state, "Exiting...");
    debugger_state.stepping = false;
    debugger_state.debugging = false;
    let error = match debugger_state.current_error.take() {
        Some(e) => Some(e),
        None => Some(Error::Halt),
    };
    debugger_state.current_error = error;
}

/// The address of the first `BREAK` after raw address `a`: where a compiled definition
/// starting at `a` ends.
pub open spec fn break_after(state: &ForthState, a: int) -> Result<int, Error>
    decreases u64::MAX - a,
{
    if a < 0 || a + 8 > u64::MAX {
        Err(Error::InvalidAddress)
    } else {
        match state.spec_read_as::<ExecutionToken>(Address::spec_from_raw(a + 8)) {
            Err(e) => Err(e),
            Ok(xt) => if xt == ExecutionToken::LeafOperation(Operation::ControlFlowBreak) {
                Ok(a + 8)
            } else {
                break_after(state, a + 8)
            },
        }
    }
}

/// The listing of a compiled definition, up to and including its `BREAK`.
pub open spec fn definition_listing(state: &ForthState, a: Address) -> Result<Seq<char>, Error> {
    match break_after(state, a.raw()) {
        Err(e) => Err(e),
        Ok(b) => if b + 8 > u64::MAX {
            Err(Error::InvalidAddress)
        } else {
            Ok(memory_listing_text(state, a, Some(Address::spec_from_raw(b + 8))))
        },
    }
}

/// The cell after the first `BREAK` after `address`.
fn find_definition_end(debug_target: &ForthState, address: Address) -> (r: Result<Address, Error>)
    requires debug_target.wf(),
    ensures
        match break_after(debug_target, address.raw()) {
            Err(e) => r == Err::<Address, Error>(e),
            Ok(b) => if b + 8 > u64::MAX {
                r == Err::<Address, Error>(Error::InvalidAddress)
            } else {
                r == Ok::<Address, Error>(Address::spec_from_raw(b + 8))
            },
        },
{
    let mut end = address;
    loop
        invariant
            debug_target.wf(),
            break_after(debug_target, address.raw()) == break_after(debug_target, end.raw()),
        decreases u64::MAX - end.raw(),
    {
        end = match end.checked_plus_cell(Cells(1)) {
            Ok(a) => a,
            Err(e) => {
                return Err(e);
            },
        };
        let current = match debug_target.read::<ExecutionToken>(end) {
            Ok(xt) => xt,
            Err(e) => {
                return Err(e);
            },
        };
        if current == ExecutionToken::LeafOperation(Operation::ControlFlowBreak) {
            return end.checked_plus_cell(Cells(1));
        }
    }
}

/// What `see` does to the debugger, and what it answers.
pub open spec fn see_effect(old: &DebugState, new: &DebugState, debug_target: &ForthState, r: ForthResult) -> bool {
    &&& (new.wf())
    &&& (new.forth.state.unchanged_except(&old.forth.state, set![Field::Input, Field::Output]))
    &&& (same_settings(old, new))
    &&& (({
                let rest = old.forth.state.input_stream.spec_rest();
                let start = skip_space(rest, 0);
                let end = word_end(rest, start);
                let out = &old.forth.state.output_stream;
                let out2 = &new.forth.state.output_stream;
                if start >= rest.len() {
                    r == Err::<(), Error>(Error::NoMoreTokens) && *out2 == *out
                } else {
                    match text_definition(&debug_target.definitions, rest.subrange(start as int, end as int)) {
                        None => r is Ok && wrote(out, out2, "No definition found"@ + seq!['\n']),
                        Some(d) => {
                            let head = execution_token_text(debug_target, d.execution_token) + seq!['\n'];
                            match d.execution_token {
                                ExecutionToken::Definition(a) => match definition_listing(debug_target, a) {
                                    Err(e) => r == Err::<(), Error>(e) && wrote(out, out2, head),
                                    Ok(listing) => r is Ok && wrote(out, out2, head + listing),
                                },
                                _ => r is Ok && wrote(out, out2, head),
                            }
                        },
                    }
                }
            }))
}

/// Reads a word from the debugger's input and shows what it runs; for a compiled
/// definition, also the definition's cells up to its `BREAK`.
pub fn see(debugger_state: &mut DebugState, debug_target: &ForthState) -> (r: ForthResult)
    requires
        old(debugger_state).wf(),
        debug_target.wf(),
    ensures
        see_effect(old(debugger_state), final(debugger_state), debug_target, r),
{
    let token = match debugger_state.forth.state.input_stream.next() {
        Ok(t) => t,
        Err(e) => {
            return Err(e);
        },
    };
    let definition = match debug_target.definitions.get_from_token(token) {
        Ok(d) => d,
        Err(_) => {
            emit_line(debugger_state, "No definition found");
            return Ok(());
        },
    };
    let text = stringify_execution_token(debug_target, definition.execution_token);
    emit_line(debugger_state, text.as_str());
    match definition.execution_token {
        ExecutionToken::Definition(address) => {
            let end = match find_definition_end(debug_target, address) {
                Ok(e) => e,
                Err(e) => {
                    return Err(e);
                },
            };
            let ghost mid = debugger_state.forth.state.output_stream.spec_pending();
            print_memory_formatted(debug_target, address, Some(end), &mut debugger_state.forth.state.output_stream);
            let ghost listing = memory_listing_text(debug_target, address, Some(end));
            assert(old(debugger_state).forth.state.output_stream.spec_pending() + (text@ + seq!['\n']) + listing
                =~= old(debugger_state).forth.state.output_stream.spec_pending() + (text@ + seq!['\n'] + listing));
        },
        _ => {},
    }
    Ok(())
}

} // verus!
