use forth::{stack, Forth, Number};

fn stack_to_vec(stack: &stack::Stack) -> Vec<Number> {
    stack.to_vec().iter().map(|x| x.to_number()).collect::<Vec<_>>()
}

#[test]
fn compiler_control_operations_locals_test() {
    let mut f = Forth::default();
    assert!(f.evaluate_string(": testing locals| a b c | b c a ;").is_ok());
    assert!(f.evaluate_string("1 2 3 testing 6 5 4 testing 10 1 34 testing").is_ok());
    assert_eq!(vec![2, 1, 3, 5, 6, 4, 1, 10, 34], stack_to_vec(&mut f.state.stack));
}

#[test]
fn set_locals_test() {
    let mut f = Forth::default();
    assert!(f.evaluate_string(": testing locals| r y | r y 10 to r r ;").is_ok());
    assert!(f.evaluate_string("5 6 testing").is_ok());
    assert_eq!(vec![6, 5, 10], stack_to_vec(&mut f.state.stack));
}
