use forth::debugger::{DebugKernel, DebugState};
use forth::debugging::debug_operations::{
    do_exit, memory_listing, print_memory_formatted, print_stack_formatted, state_view, stringify_error,
    stringify_execution_token,
};
use forth::output_stream::OutputSink;
use forth::output_stream::{BufferedOutputStream, OutputStream};
use forth::profiler::{ProfilerInformation, ProfilerKernel};
use forth::{kernels, Error, ExecutionToken, Forth, Number};

fn stack_numbers(f: &Forth<impl kernels::Kernel>) -> Vec<Number> {
    f.state.stack.to_vec().iter().map(|x| x.to_number()).collect::<Vec<_>>()
}

fn debug_forth(commands: &str) -> Forth<DebugKernel<kernels::DefaultKernel>> {
    let mut f = Forth::<DebugKernel<kernels::DefaultKernel>>::new();
    f.kernel.init_io(commands.chars().collect(), BufferedOutputStream::new());
    f
}

#[test]
fn stringify_number_token() {
    let f = Forth::<kernels::DefaultKernel>::new();
    assert_eq!("push 5", stringify_execution_token(&f.state, ExecutionToken::Number(5)));
    assert_eq!("push -12", stringify_execution_token(&f.state, ExecutionToken::Number(-12)));
}

#[test]
fn stringify_builtin_token() {
    let f = Forth::<kernels::DefaultKernel>::new();
    let dup = f.state.definitions.get_from_str("DUP").unwrap().execution_token;
    assert_eq!("DUP (builtin)", stringify_execution_token(&f.state, dup));
}

#[test]
fn stringify_defined_word() {
    let mut f = Forth::<kernels::DefaultKernel>::new();
    assert!(f.evaluate_string(": SQUARE DUP * ;").is_ok());
    let xt = f.state.definitions.get_from_str("SQUARE").unwrap().execution_token;
    let text = stringify_execution_token(&f.state, xt);
    assert!(text.starts_with("SQUARE (defined call @ 0x"));
    assert!(text.ends_with(")"));
}

#[test]
fn error_names() {
    assert_eq!("StackUnderflow", stringify_error(&Error::StackUnderflow));
    assert_eq!("UnknownWord(\"FOO\")", stringify_error(&Error::UnknownWord("FOO".to_string())));
    assert_eq!("Exception(7)", stringify_error(&Error::Exception(7)));
}

#[test]
fn state_view_shows_mode_and_stack() {
    let mut f = Forth::<kernels::DefaultKernel>::new();
    assert!(f.evaluate_string("7 8").is_ok());
    let view = state_view(&None, &Vec::new(), &f.state);
    assert!(view.contains("      execution mode: interpreting\n"));
    assert!(view.contains(" instruction pointer: (awaiting input)\n"));
    assert!(view.contains("stack:\n\n       0x0 | 7\n       0x1 | 8\n"));
    assert!(!view.contains("ENCOUNTERED ERROR"));
}

#[test]
fn state_view_shows_error_and_breakpoints() {
    let f = Forth::<kernels::DefaultKernel>::new();
    let view = state_view(&Some(Error::DivisionByZero), &vec![forth::memory::Address::from_raw(forth::units::Bytes(0x40))], &f.state);
    assert!(view.starts_with("######################################################\nENCOUNTERED ERROR DivisionByZero\n"));
    assert!(view.contains("\n         breakpoints: 0x40\n"));
}

#[test]
fn memory_listing_of_a_variable() {
    let mut f = Forth::<kernels::DefaultKernel>::new();
    assert!(f.evaluate_string("VARIABLE COUNTER 42 COUNTER ! COUNTER").is_ok());
    let address = f.state.stack.pop::<forth::memory::Address>().unwrap();
    let end = address.plus_cell(forth::units::Cells(1));
    let listing = memory_listing(&f.state, address, Some(end));
    assert_eq!(1, listing.lines().count());
    assert!(listing.contains(" | "));
    assert!(listing.contains("42"));
}

#[test]
fn debug_word_opens_the_debugger() {
    let mut f = debug_forth("STATE CONTINUE");
    assert_eq!(Ok(()), f.evaluate_string("1 2 DEBUG 3 +"));
    assert_eq!(vec![1, 5], stack_numbers(&f));
    let out = f.kernel.debug_state.forth.state.output_stream.consume();
    assert!(out.contains("Now debugging Forth process\n"));
    assert!(out.contains("Continuing\n"));
    assert!(out.contains("execution mode: interpreting"));
}

#[test]
fn unhandled_error_stays_after_debugging() {
    let mut f = debug_forth("STATE");
    assert_eq!(Err(Error::UnknownWord("FOO".to_string())), f.evaluate_string("FOO"));
    let out = f.kernel.debug_state.forth.state.output_stream.consume();
    assert!(out.contains("ENCOUNTERED ERROR UnknownWord(\"FOO\")"));
}

#[test]
fn continue_clears_the_error_being_debugged() {
    let mut f = debug_forth("CONTINUE");
    assert_eq!(Ok(()), f.evaluate_string("FOO"));
}

#[test]
fn exit_command_halts_or_keeps_the_error() {
    let mut d = DebugState::new();
    do_exit(&mut d);
    assert!(d.current_error == Some(Error::Halt));
    assert!(!d.debugging && !d.stepping);
    d.current_error = Some(Error::DivisionByZero);
    do_exit(&mut d);
    assert!(d.current_error == Some(Error::DivisionByZero));
    assert!(d.forth.state.output_stream.consume().is_empty());
}

#[test]
fn exit_in_the_debugger_input_is_the_forth_word() {
    let mut f = debug_forth("EXIT");
    assert_eq!(Ok(()), f.evaluate_string("1 DEBUG 2 3"));
    assert_eq!(vec![1, 2, 3], stack_numbers(&f));
}

#[test]
fn set_break_records_a_breakpoint() {
    let mut f = debug_forth("64 SET_BREAK CONTINUE");
    assert_eq!(Ok(()), f.evaluate_string("DEBUG"));
    assert_eq!(1, f.kernel.debug_state.breakpoints.len());
    assert_eq!(64, f.kernel.debug_state.breakpoints[0].as_raw());
    let out = f.kernel.debug_state.forth.state.output_stream.consume();
    assert!(out.contains("Set breakpoint @ 0x40\n"));
}

#[test]
fn set_break_needs_an_address() {
    let mut f = debug_forth("SET_BREAK");
    assert_eq!(Ok(()), f.evaluate_string("DEBUG"));
    assert_eq!(0, f.kernel.debug_state.breakpoints.len());
}

#[test]
fn examine_reads_a_variable() {
    let mut f = debug_forth("");
    assert!(f.evaluate_string("VARIABLE V 99 V ! V").is_ok());
    let address = f.state.stack.pop::<forth::memory::Address>().unwrap();
    let mut commands = address.as_raw().to_string();
    commands.push_str(" X N 0 X N CONTINUE");
    f.kernel.init_io(commands.chars().collect(), BufferedOutputStream::new());
    assert_eq!(Ok(()), f.evaluate_string("DEBUG"));
    let out = f.kernel.debug_state.forth.state.output_stream.consume();
    assert!(out.contains("\n99\n"));
}

#[test]
fn see_shows_a_definition() {
    let mut f = debug_forth("SEE SQUARE SEE NOSUCHWORD CONTINUE");
    assert_eq!(Ok(()), f.evaluate_string(": SQUARE DUP * ; DEBUG"));
    let out = f.kernel.debug_state.forth.state.output_stream.consume();
    assert!(out.contains("SQUARE (defined call @ 0x"));
    assert!(out.contains("definition of SQUARE"));
    assert!(out.contains("DUP (builtin)"));
    assert!(out.contains("No definition found\n"));
}

#[test]
fn memory_map_lists_the_segments() {
    let mut f = debug_forth("VMMAP CONTINUE");
    assert_eq!(Ok(()), f.evaluate_string("DEBUG"));
    let out = f.kernel.debug_state.forth.state.output_stream.consume();
    assert!(out.contains("memory mapping:\n"));
    assert!(out.contains("  | data space\n") || out.contains("  | data_space\n"));
}

#[test]
fn all_commands_lists_words() {
    let mut f = debug_forth("ALL_COMMANDS CONTINUE");
    assert_eq!(Ok(()), f.evaluate_string(": TWICE 2 * ; DEBUG"));
    let out = f.kernel.debug_state.forth.state.output_stream.consume();
    assert!(out.contains("TWICE          :            TWICE (defined call @ "));
    assert!(out.contains("DUP            :            DUP (builtin)\n"));
}

#[test]
fn stepping_debugs_each_step() {
    let mut f = debug_forth("STEP STEP CONTINUE");
    assert_eq!(Ok(()), f.evaluate_string("DEBUG 1 2"));
    let out = f.kernel.debug_state.forth.state.output_stream.consume();
    assert_eq!(2, out.matches("Stepped\n").count());
    assert_eq!(vec![1, 2], stack_numbers(&f));
}

#[test]
fn new_debugger_knows_the_commands() {
    let d = DebugState::new();
    assert_eq!(10, d.debug_operations.len());
    assert_eq!("XVIEW", d.debug_operations[0].0);
    assert!(!d.debugging && !d.stepping && d.current_error.is_none());
}

#[test]
fn profiler_counts_instructions() {
    let mut info = ProfilerInformation::new();
    let mut f = Forth::<kernels::DefaultKernel>::new().with_output_stream(BufferedOutputStream::new());
    info.record_instruction(ExecutionToken::Number(3));
    info.record_instruction(ExecutionToken::Number(4));
    info.record_instruction(ExecutionToken::Number(3));
    info.dump_statistics(&mut f.state);
    let out = f.state.output_stream.consume();
    assert!(out.starts_with("total instructions: 3\n"));
    assert!(out.contains(&format!("   {:>30}: 2\n", "push 3")));
    assert!(out.contains(&format!("   {:>30}: 1\n", "push 4")));
}

#[test]
fn profile_start_and_end_report_local_counts() {
    let mut f = Forth::<ProfilerKernel<kernels::DefaultKernel>>::new().with_output_stream(BufferedOutputStream::new());
    assert_eq!(Ok(()), f.evaluate_string("PROFILE_START 1 2 + PROFILE_END"));
    let out = f.state.output_stream.consume();
    assert!(out.starts_with("total instructions: "));
    assert!(out.contains("+ (builtin): 1\n"));
    assert!(!f.kernel.recording);
}

#[test]
fn profile_stats_reports_both_profiles() {
    let mut f = Forth::<ProfilerKernel<kernels::DefaultKernel>>::new().with_output_stream(BufferedOutputStream::new());
    assert_eq!(Ok(()), f.evaluate_string("1 DROP PROFILE_STATS"));
    let out = f.state.output_stream.consume();
    assert!(out.starts_with("Global Profiling Stats:\ntotal instructions: "));
    assert!(out.contains("Local Profiling Stats:\ntotal instructions: 0\n"));
}

#[test]
fn profile_word_needs_a_known_word() {
    let mut f = Forth::<ProfilerKernel<kernels::DefaultKernel>>::new().with_output_stream(BufferedOutputStream::new());
    assert_eq!(Err(Error::UnknownWord("NOSUCH".to_string())), f.evaluate_string("PROFILE_WORD NOSUCH"));
    assert!(f.evaluate_string(": SQ DUP * ; PROFILE_WORD SQ").is_ok());
    let out = f.state.output_stream.consume();
    assert!(out.starts_with("Profiling SQ (defined call @ 0x"));
    assert!(f.evaluate_string("3 SQ").is_ok());
    assert_eq!(vec![9], stack_numbers(&f));
}

#[test]
fn profiler_passes_other_errors_on() {
    let mut f = Forth::<ProfilerKernel<kernels::DefaultKernel>>::new().with_output_stream(BufferedOutputStream::new());
    assert_eq!(Err(Error::StackUnderflow), f.evaluate_string("DROP"));
}

#[test]
fn print_formatted_listings() {
    let mut f = Forth::<kernels::DefaultKernel>::new();
    assert!(f.evaluate_string("VARIABLE W 5 W ! 11 22 W").is_ok());
    let address = f.state.stack.pop::<forth::memory::Address>().unwrap();
    let mut out = OutputSink::buffered();
    let values = f.state.stack.to_vec();
    print_stack_formatted(&f.state, &values, 2, &mut out);
    assert_eq!("       0x0 | 11\n       0x1 | 22\n", out.consume());
    let start = address.minus_cell(forth::units::Cells(3));
    print_memory_formatted(&f.state, start, Some(address.plus_cell(forth::units::Cells(1))), &mut out);
    let text = out.consume();
    let lines: Vec<&str> = text.lines().collect();
    assert_eq!(4, lines.len());
    assert!(lines[0].ends_with("definition of W"));
    assert!(lines[3].contains(" 5 "));
}

#[test]
fn breakpoint_stops_the_machine() {
    let mut f = debug_forth("");
    assert!(f.evaluate_string(": T 1 2 ;").is_ok());
    let address = match f.state.definitions.get_from_str("T").unwrap().execution_token {
        ExecutionToken::Definition(a) => a,
        _ => panic!("T is a compiled definition"),
    };
    f.kernel.debug_state.breakpoints.push(address);
    f.kernel.init_io("CONTINUE".chars().collect(), BufferedOutputStream::new());
    assert_eq!(Ok(()), f.evaluate_string("T"));
    assert_eq!(vec![1, 2], stack_numbers(&f));
    let out = f.kernel.debug_state.forth.state.output_stream.consume();
    assert!(out.contains(&format!("Hit breakpoint at {:#x}\n", address.as_raw())));
    assert!(out.contains(&format!("breakpoints: {:#x}\n", address.as_raw())));
}
