use forth::compiled_instructions::CompiledInstruction;
use forth::environment::heap::Heap;
use forth::memory::Address;
use forth::operations::arithmetic_operations::{abs, add, divide, equals_zero, multiply_divide, negate, sub};
use forth::operations::{get_operations, Glue, Operation};
use forth::units::Bytes;
use forth::{kernels, Error, ExecutionToken, Forth, Number, Value};

fn numbers(f: &Forth<kernels::DefaultKernel>) -> Vec<Number> {
    f.state.stack.to_vec().iter().map(|x| x.to_number()).collect::<Vec<_>>()
}

#[test]
fn arithmetic_word_functions() {
    let mut f = Forth::<kernels::DefaultKernel>::new();
    assert!(f.evaluate_string("7 5").is_ok());
    assert_eq!(Ok(()), sub(&mut f.state, Glue::Number));
    assert_eq!(vec![2], numbers(&f));
    assert!(f.evaluate_string("40").is_ok());
    assert_eq!(Ok(()), add(&mut f.state, Glue::Number));
    assert_eq!(vec![42], numbers(&f));
    assert_eq!(Ok(()), negate(&mut f.state, Glue::Number));
    assert_eq!(vec![-42], numbers(&f));
    assert_eq!(Ok(()), abs(&mut f.state, Glue::Number));
    assert_eq!(vec![42], numbers(&f));
    assert_eq!(Ok(()), equals_zero(&mut f.state, Glue::Number));
    assert_eq!(vec![0], numbers(&f));
}

#[test]
fn division_by_zero_is_an_error() {
    let mut f = Forth::<kernels::DefaultKernel>::new();
    assert!(f.evaluate_string("7 0").is_ok());
    assert_eq!(Err(Error::DivisionByZero), divide(&mut f.state, Glue::Number));
}

#[test]
fn multiply_divide_uses_double_width() {
    let mut f = Forth::<kernels::DefaultKernel>::new();
    assert!(f.evaluate_string("4611686018427387904 4 8").is_ok());
    assert_eq!(Ok(()), multiply_divide(&mut f.state, Glue::SingleToDouble));
    assert_eq!(vec![2305843009213693952], numbers(&f));
}

#[test]
fn instruction_texts() {
    assert_eq!("push 5", CompiledInstruction::Push(Value::Number(5)).to_string());
    assert_eq!("[alloc + push mem] push 3", CompiledInstruction::MemPush(Value::ExecutionToken(ExecutionToken::Number(3))).to_string());
    assert_eq!("jmp Address(0x10)", CompiledInstruction::Branch(Address::from_raw(Bytes(16))).to_string());
    assert_eq!("jz Address(0xff)", CompiledInstruction::BranchFalse(Address::from_raw(Bytes(255))).to_string());
    assert_eq!("jmp [ip - 16 Bytes]", CompiledInstruction::RelativeBranch(true, Bytes(16)).to_string());
    assert_eq!("jz [ip + 8 Bytes]", CompiledInstruction::RelativeBranchFalse(false, Bytes(8)).to_string());
}

#[test]
fn token_texts() {
    assert_eq!("definition @ 0x20", ExecutionToken::Definition(Address::from_raw(Bytes(32))).to_string());
    assert_eq!("compiled instruction @ offset 3", ExecutionToken::CompiledInstruction(3).to_string());
    assert_eq!("push -1", ExecutionToken::Number(-1).to_string());
    assert_eq!("operation @ 0", ExecutionToken::LeafOperation(Operation::Debug).to_string());
}

#[test]
fn heap_description() {
    let mut heap = Heap::new(0x7feadface000);
    let mut empty = String::from("smallbin [0 Cells 64 Cells 2 Cells]:\n");
    for i in 0..32 {
        empty.push_str(&format!("\nsize: {} Cells:\n", 2 * i));
    }
    assert_eq!(empty, heap.to_string());
    assert!(heap.allocate(Bytes(50)).is_ok());
    let text = heap.to_string();
    let mut run = String::from("\nsize: 8 Cells:\n\nAddress(0x7feadface000)\navailable: \nnew_chunk: Address(0x7feadface000): 0\n");
    for i in 1..8 {
        run.push_str(&format!("           Address({:#x}): 0\n", 0x7feadface000u64 + 8 * i));
    }
    run.push_str("\nsize: 10 Cells:\n");
    assert!(text.contains(&run));
}

#[test]
fn builtin_word_table() {
    let table = get_operations();
    assert_eq!(180, table.len());
    assert!(table.iter().any(|(name, immediate, _)| *name == "DUP" && !immediate));
    assert!(table.iter().any(|(name, immediate, _)| *name == ";" && *immediate));
}

#[test]
fn postpone_and_tick_compile_tokens() {
    let mut f = Forth::<kernels::DefaultKernel>::new();
    assert_eq!(Err(Error::UnknownWord("NOSUCH".to_string())), f.evaluate_string("' NOSUCH"));
    assert!(f.evaluate_string(": SQ DUP * ; : RUN ['] SQ EXECUTE ; 5 RUN").is_ok());
    assert_eq!(vec![25], numbers(&f));
    assert!(f.evaluate_string(": TWICE POSTPONE SQ POSTPONE SQ ; IMMEDIATE : FOURTH TWICE ; 2 FOURTH").is_ok());
    assert_eq!(vec![25, 16], numbers(&f));
}

#[test]
fn loops_compile_and_run() {
    let mut f = Forth::<kernels::DefaultKernel>::new();
    assert!(f.evaluate_string(": COUNT-UP 5 0 DO I LOOP ; COUNT-UP").is_ok());
    assert_eq!(vec![0, 1, 2, 3, 4], numbers(&f));
    let mut g = Forth::<kernels::DefaultKernel>::new();
    assert!(g.evaluate_string(": DOWN BEGIN 1 - DUP 0= UNTIL ; 3 DOWN").is_ok());
    assert_eq!(vec![0], numbers(&g));
    let mut h = Forth::<kernels::DefaultKernel>::new();
    assert!(h.evaluate_string(": STEPS 10 0 DO I 3 +LOOP ; STEPS").is_ok());
    assert_eq!(vec![0, 3, 6, 9], numbers(&h));
}
