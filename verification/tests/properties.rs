use forth::output_stream::{BufferedOutputStream, OutputStream};
use forth::evaluate::definition::{Definition, DefinitionTable};
use forth::io::format::decimal;
use forth::io::tokens::Token;
use forth::memory::Address;
use forth::{kernels, stack, ExecutionToken, Forth, Value};

fn variable_address(f: &mut Forth<kernels::DefaultKernel>, name: &str) -> Address {
    let mut text = String::from("VARIABLE ");
    text.push_str(name);
    text.push(' ');
    text.push_str(name);
    assert!(f.evaluate_string(&text).is_ok());
    f.state.stack.pop::<Address>().unwrap()
}

#[test]
fn stack_push_then_pop_gives_back_a_number() {
    let mut s = stack::Stack::new(0x1000);
    s.push::<i64>(17);
    s.push::<i64>(-5);
    assert_eq!(Ok(-5), s.pop::<i64>());
    assert_eq!(Ok(17), s.pop::<i64>());
    assert_eq!(0, s.len().0);
}

#[test]
fn stack_push_then_pop_gives_back_a_double_number() {
    let mut s = stack::Stack::new(0x1000);
    s.push::<i64>(1);
    s.push::<i128>(-170141183460469231731687303715884105728);
    assert_eq!(Ok(-170141183460469231731687303715884105728), s.pop::<i128>());
    assert_eq!(Ok(1), s.pop::<i64>());
}

#[test]
fn stack_push_then_pop_gives_back_a_cell() {
    let mut s = stack::Stack::new(0x1000);
    let v = Value::ExecutionToken(ExecutionToken::Number(3));
    s.push::<Value>(v);
    assert!(s.pop::<Value>() == Ok(v));
}

#[test]
fn read_after_write_gives_the_number_back() {
    let mut f = Forth::<kernels::DefaultKernel>::new();
    let a = variable_address(&mut f, "CELL");
    assert_eq!(Ok(()), f.state.write::<i64>(a, -987654321));
    assert_eq!(Ok(-987654321), f.state.read::<i64>(a));
}

#[test]
fn read_after_write_gives_the_byte_back() {
    let mut f = Forth::<kernels::DefaultKernel>::new();
    let a = variable_address(&mut f, "CELL");
    assert_eq!(Ok(()), f.state.write::<i64>(a, 0x1122334455667788));
    let third = Address::from_raw(forth::units::Bytes(a.as_raw() + 3));
    assert_eq!(Ok(()), f.state.write::<u8>(third, 0xab));
    assert_eq!(Ok(0xab), f.state.read::<u8>(third));
    assert_eq!(Ok(0x11223344ab667788), f.state.read::<i64>(a));
}

#[test]
fn a_write_keeps_other_cells() {
    let mut f = Forth::<kernels::DefaultKernel>::new();
    let a = variable_address(&mut f, "FIRST");
    let b = variable_address(&mut f, "SECOND");
    assert_eq!(Ok(()), f.state.write::<i64>(a, 1));
    assert_eq!(Ok(()), f.state.write::<i64>(b, 2));
    assert_eq!(Ok(()), f.state.write::<i64>(a, 3));
    assert_eq!(Ok(2), f.state.read::<i64>(b));
    assert_eq!(Ok(3), f.state.read::<i64>(a));
}

#[test]
fn lookup_finds_the_latest_definition() {
    let mut t = DefinitionTable::new();
    let first = Definition::new(ExecutionToken::Number(1), false);
    let second = Definition::new(ExecutionToken::Number(2), true);
    let third = Definition::new(ExecutionToken::Number(3), false);
    t.add("FOO".to_string(), first);
    t.add("BAR".to_string(), second);
    assert!(t.get_from_str("FOO") == Ok(first));
    t.add("FOO".to_string(), third);
    assert!(t.get_from_str("FOO") == Ok(third));
    assert!(t.get_from_str("BAR") == Ok(second));
}

#[test]
fn printed_numbers_read_back() {
    for n in [0i64, 7, -7, 1234567890, i64::MAX, i64::MIN] {
        let text = decimal(n as i128);
        assert_eq!(n.to_string(), text);
        assert!(Token::tokenize(&text) == Token::Integer(n));
    }
}

#[test]
fn printing_then_reading_with_forth_words() {
    let mut f = Forth::<kernels::DefaultKernel>::new().with_output_stream(BufferedOutputStream::new());
    assert!(f.evaluate_string("-42 .").is_ok());
    let printed = f.state.output_stream.consume();
    assert!(f.evaluate_string(&printed).is_ok());
    assert_eq!(Ok(-42), f.state.stack.pop::<i64>());
}

#[test]
fn return_after_call_comes_back() {
    let mut f = Forth::<kernels::DefaultKernel>::new();
    let here = Address::from_raw(forth::units::Bytes(0x1238));
    let target = Address::from_raw(forth::units::Bytes(0x2000));
    f.state.instruction_pointer = Some(here);
    let before = f.state.return_stack.to_vec().len();
    assert_eq!(Ok(()), f.state.call(target));
    assert!(f.state.instruction_pointer == Some(target));
    assert_eq!(Ok(()), f.state.return_from());
    assert!(f.state.instruction_pointer == Some(here));
    assert_eq!(before, f.state.return_stack.to_vec().len());
}

#[test]
fn return_after_top_level_call_awaits_input() {
    let mut f = Forth::<kernels::DefaultKernel>::new();
    let target = Address::from_raw(forth::units::Bytes(0x2000));
    assert_eq!(Ok(()), f.state.call(target));
    assert_eq!(Ok(()), f.state.return_from());
    assert!(f.state.instruction_pointer.is_none());
    assert_eq!(0, f.state.return_stack.to_vec().len());
}

#[test]
fn words_in_any_case_tokenize_upper_cased() {
    for text in ["dup", "DUP", "Dup"] {
        assert_eq!(Token::Word(String::from("DUP")), Token::tokenize(text));
    }
    assert_eq!(Token::Integer(-12), Token::tokenize("-12"));
    assert_eq!(Token::Integer(31), Token::tokenize("0x1F"));
    assert_eq!(Token::Integer(5), Token::tokenize("0b101"));
    assert_eq!(Token::Word(String::from("DUP-TWICE")), Token::tokenize("dup-twice"));
}

#[test]
fn token_stream_reads_numbers_and_words() {
    let mut ts = forth::io::tokens::TokenStream::new("  12 dup\t0x1F\n");
    assert_eq!(Ok(Token::Integer(12)), ts.next());
    assert_eq!(Ok(Token::Word(String::from("DUP"))), ts.next());
    assert_eq!(Ok(Token::Integer(31)), ts.next());
    assert_eq!(Err(forth::Error::NoMoreTokens), ts.next());
}

#[test]
fn builtin_names_are_upper_case() {
    for (name, _, _) in forth::operations::get_operations() {
        assert_eq!(name.to_uppercase(), name);
    }
}
