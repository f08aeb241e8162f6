pub mod arithmetic_laws;
pub mod arithmetic_operations;
pub mod compiler_control_operations;
pub mod control_flow_operations;
pub mod data_operations;
pub mod memory_operations;
pub mod print_operations;
pub mod stack_operations;
pub mod string_operations;

use vstd::prelude::*;
use crate::environment::value::{DoubleValue, Value};
use crate::environment::generic_numbers::Byte;
use crate::evaluate::{Error, ForthResult, ForthState};
use crate::evaluate::execution::token_rank;

use crate::io::output_stream::kept_output;

verus! {

/// Number types that the arithmetic operations pop, and the type they compute in.
#[derive(Clone, Copy, PartialEq, Eq, Structural, Debug, Hash)]
pub enum Glue {
    /// single cells, signed
    Number,
    /// double cells, signed
    DoubleNumber,
    /// single cells, unsigned
    UnsignedNumber,
    /// double cells, unsigned
    UnsignedDoubleNumber,
    /// single cells, widened to signed doubles
    SingleToDouble,
    /// single cells, widened to unsigned doubles
    UnsignedSingleToDouble,
}

#[derive(Clone, Copy, PartialEq, Eq, Structural, Debug, Hash)]
pub enum ArithmeticOperation {
    Add,
    Sub,
    Multiply,
    Divide,
    Modulo,
    Min,
    Max,
    Negate,
    Abs,
    MultiplyDivide,
    Equals,
    NotEquals,
    LessThan,
    GreaterThan,
    LessThanOrEqual,
    GreaterThanOrEquals,
    EqualsZero,
    LessThanZero,
    GreaterThanZero,
    BitwiseAnd,
    BitwiseOr,
    LeftShift,
    RightShift,
}

/// One cell (`Value`) or two cells (`DoubleValue`).
#[derive(Clone, Copy, PartialEq, Eq, Structural, Debug, Hash)]
pub enum Width {
    Single,
    Double,
}

/// The unit that `@` and `!` style words read or write.
#[derive(Clone, Copy, PartialEq, Eq, Structural, Debug, Hash)]
pub enum MemoryWidth {
    Cell,
    Byte,
    Double,
}

/// How a popped number is printed.
#[derive(Clone, Copy, PartialEq, Eq, Structural, Debug, Hash)]
pub enum NumberFormat {
    Number,
    DoubleNumber,
    Byte,
    UnsignedNumber,
}

/// The character that ends a comment or a list of locals.
#[derive(Clone, Copy, PartialEq, Eq, Structural, Debug, Hash)]
pub enum ClosingToken {
    CurlyBracket,
    NewLine,
    Parenthesis,
    Pipe,
}

/// A built-in operation.
#[derive(Clone, Copy, PartialEq, Eq, Structural, Debug, Hash)]
pub enum Operation {
    Arithmetic(ArithmeticOperation, Glue),
    MemoryWrite(MemoryWidth),
    Dereference(MemoryWidth),
    PopWrite,
    StackToReturnStack(Width),
    ReturnStackToStack(Width),
    CopyFromReturnStack(Width),
    Dup(Width),
    MaybeDup(Width),
    Drop(Width),
    Swap(Width),
    Over(Width),
    Rot(Width),
    NRot(Width),
    Nip(Width),
    Tuck(Width),
    PushStackFrame,
    PopStackFrame,
    Here,
    Allot,
    Create,
    Does,
    Value,
    Cells,
    To,
    MapAnonymous,
    Allocate,
    Free,
    Resize,
    Variable(Width),
    Constant(Width),
    ControlFlowBreak,
    DoInitLoop,
    LoopPlusCompiletime,
    LoopCompiletime,
    BeginLoop,
    UntilLoop,
    AgainLoop,
    WhileLoop,
    RepeatLoop,
    Leave,
    Exit,
    Throw,
    EvaluateString,
    Immediate,
    SetInterpret,
    SetCompile,
    StartWordCompilation,
    EndWordCompilation,
    Postpone,
    Literal,
    Execute,
    ReadExecutionToken,
    Body,
    GetExecutionToken,
    AbsorbComment(ClosingToken),
    ExecutionModeAddress,
    WriteBranchFalse,
    WriteBranch,
    Locals(ClosingToken),
    PopAndPrint(NumberFormat),
    PrintNewline,
    PrintString,
    TypeString,
    Emit,
    GetChar,
    GetWord,
    Trailing,
    CMove,
    CMoveBackwards,
    MoveNoClobber,
    Accept,
    Count,
    /// run-time part of a constant: push the value stored after it and return
    ConstantRuntime(Width),
    /// run-time part of `TO` on a word: redefine it as the popped number
    ToRuntime,
    /// run-time part of `TO` on a local: overwrite the local's frame slot
    ToLocalRuntime,
    /// run-time step of a counted loop
    LoopRuntime,
    /// run-time clean-up after a counted loop
    LoopEpilogue,
    /// run-time entry of a word with locals: move them to the return stack
    LocalsRuntime,
    /// run-time body of a local's accessor
    LocalStubRuntime,
    /// run-time part of `."`: print the string stored after it
    PrintStringRuntime,
    /// marker for the debugger
    Debug,
}

/// The character a closing token stands for.
pub open spec fn closing_char(c: ClosingToken) -> char {
    match c {
        ClosingToken::CurlyBracket => '}',
        ClosingToken::NewLine => '\n',
        ClosingToken::Parenthesis => ')',
        ClosingToken::Pipe => '|',
    }
}

/// How many `EXECUTE`s deep an operation may lead before doing its work.
pub open spec fn operation_rank(op: Operation) -> int {
    if op == Operation::Execute {
        1
    } else {
        0
    }
}

/// What running built-in operation `op` does to a machine, and what it answers: the effect
/// of the word's own function.
pub open spec fn operation_effect(op: Operation, old: &ForthState, new: &ForthState, r: ForthResult) -> bool {
    match op {
        Operation::Execute => compiler_control_operations::execute_effect(old, new, r),
        Operation::StackToReturnStack(w) => match w {
            Width::Single => stack_operations::stack_to_return_stack_effect::<Value>(old, new, r),
            Width::Double => stack_operations::stack_to_return_stack_effect::<DoubleValue>(old, new, r),
        },
        Operation::ReturnStackToStack(w) => match w {
            Width::Single => stack_operations::return_stack_to_stack_effect::<Value>(old, new, r),
            Width::Double => stack_operations::return_stack_to_stack_effect::<DoubleValue>(old, new, r),
        },
        Operation::CopyFromReturnStack(w) => match w {
            Width::Single => stack_operations::copy_from_return_stack_effect::<Value>(old, new, r),
            Width::Double => stack_operations::copy_from_return_stack_effect::<DoubleValue>(old, new, r),
        },
        Operation::Dup(w) => match w {
            Width::Single => stack_operations::dup_effect::<Value>(old, new, r),
            Width::Double => stack_operations::dup_effect::<DoubleValue>(old, new, r),
        },
        Operation::MaybeDup(w) => match w {
            Width::Single => stack_operations::maybe_dup_effect::<Value>(old, new, r),
            Width::Double => stack_operations::maybe_dup_effect::<DoubleValue>(old, new, r),
        },
        Operation::Drop(w) => match w {
            Width::Single => stack_operations::drop_effect::<Value>(old, new, r),
            Width::Double => stack_operations::drop_effect::<DoubleValue>(old, new, r),
        },
        Operation::Swap(w) => match w {
            Width::Single => stack_operations::swap_effect::<Value>(old, new, r),
            Width::Double => stack_operations::swap_effect::<DoubleValue>(old, new, r),
        },
        Operation::Over(w) => match w {
            Width::Single => stack_operations::over_effect::<Value>(old, new, r),
            Width::Double => stack_operations::over_effect::<DoubleValue>(old, new, r),
        },
        Operation::Rot(w) => match w {
            Width::Single => stack_operations::rot_effect::<Value>(old, new, r),
            Width::Double => stack_operations::rot_effect::<DoubleValue>(old, new, r),
        },
        Operation::NRot(w) => match w {
            Width::Single => stack_operations::nrot_effect::<Value>(old, new, r),
            Width::Double => stack_operations::nrot_effect::<DoubleValue>(old, new, r),
        },
        Operation::Nip(w) => match w {
            Width::Single => stack_operations::nip_effect::<Value>(old, new, r),
            Width::Double => stack_operations::nip_effect::<DoubleValue>(old, new, r),
        },
        Operation::Tuck(w) => match w {
            Width::Single => stack_operations::tuck_effect::<Value>(old, new, r),
            Width::Double => stack_operations::tuck_effect::<DoubleValue>(old, new, r),
        },
        Operation::PushStackFrame => stack_operations::push_stack_frame_effect(old, new, r),
        Operation::PopStackFrame => stack_operations::pop_stack_frame_effect(old, new, r),
        Operation::Arithmetic(a, g) => arithmetic_operations::arithmetic_effect(old, new, a, g, r),
        Operation::MemoryWrite(w) => match w {
            MemoryWidth::Cell => memory_operations::memory_write_effect::<Value>(old, new, r),
            MemoryWidth::Byte => memory_operations::memory_write_effect::<Byte>(old, new, r),
            MemoryWidth::Double => memory_operations::memory_write_effect::<DoubleValue>(old, new, r),
        },
        Operation::Dereference(w) => match w {
            MemoryWidth::Cell => memory_operations::dereference_effect::<Value>(old, new, r),
            MemoryWidth::Byte => memory_operations::dereference_effect::<Byte>(old, new, r),
            MemoryWidth::Double => memory_operations::dereference_effect::<DoubleValue>(old, new, r),
        },
        Operation::PopWrite => memory_operations::pop_write_effect(old, new, r),
        Operation::Here => data_operations::here_effect(old, new, r),
        Operation::Allot => data_operations::allot_effect(old, new, r),
        Operation::Create => data_operations::create_effect(old, new, r),
        Operation::Does => data_operations::does_effect(old, new, r),
        Operation::Value => data_operations::value_effect(old, new, r),
        Operation::Cells => data_operations::cells_effect(old, new, r),
        Operation::To => data_operations::to_effect(old, new, r),
        Operation::MapAnonymous => data_operations::map_anonymous_effect(old, new, r),
        Operation::Allocate => data_operations::allocate_effect(old, new, r),
        Operation::Free => data_operations::free_effect(old, new, r),
        Operation::Resize => data_operations::resize_effect(old, new, r),
        Operation::Variable(w) => match w {
            Width::Single => data_operations::variable_effect::<Value>(old, new, r),
            Width::Double => data_operations::variable_effect::<DoubleValue>(old, new, r),
        },
        Operation::Constant(w) => match w {
            Width::Single => data_operations::constant_effect::<Value>(old, new, w, r),
            Width::Double => data_operations::constant_effect::<DoubleValue>(old, new, w, r),
        },
        Operation::ConstantRuntime(w) => match w {
            Width::Single => data_operations::constant_runtime_effect::<Value>(old, new, r),
            Width::Double => data_operations::constant_runtime_effect::<DoubleValue>(old, new, r),
        },
        Operation::ToRuntime => data_operations::to_runtime_effect(old, new, r),
        Operation::ToLocalRuntime => data_operations::to_local_runtime_effect(old, new, r),
        Operation::ControlFlowBreak => control_flow_operations::control_flow_break_effect(old, new, r),
        Operation::DoInitLoop => control_flow_operations::do_init_loop_effect(old, new, r),
        Operation::LoopPlusCompiletime => control_flow_operations::loop_plus_compiletime_effect(old, new, r),
        Operation::LoopCompiletime => control_flow_operations::loop_compiletime_effect(old, new, r),
        Operation::BeginLoop => control_flow_operations::begin_loop_effect(old, new, r),
        Operation::UntilLoop => control_flow_operations::until_loop_effect(old, new, r),
        Operation::AgainLoop => control_flow_operations::again_loop_effect(old, new, r),
        Operation::WhileLoop => control_flow_operations::while_loop_effect(old, new, r),
        Operation::RepeatLoop => control_flow_operations::repeat_loop_effect(old, new, r),
        Operation::Leave => control_flow_operations::leave_effect(old, new, r),
        Operation::Exit => control_flow_operations::exit_effect(old, new, r),
        Operation::Throw => control_flow_operations::throw_effect(old, new, r),
        Operation::EvaluateString => control_flow_operations::evaluate_string_effect(old, new, r),
        Operation::LoopRuntime => control_flow_operations::loop_runtime_effect(old, new, r),
        Operation::LoopEpilogue => control_flow_operations::loop_epilogue_effect(old, new, r),
        Operation::Immediate => compiler_control_operations::immedate_effect(old, new, r),
        Operation::SetInterpret => compiler_control_operations::set_interpret_effect(old, new, r),
        Operation::SetCompile => compiler_control_operations::set_compile_effect(old, new, r),
        Operation::StartWordCompilation => compiler_control_operations::start_word_compilation_effect(old, new, r),
        Operation::EndWordCompilation => compiler_control_operations::end_word_compilation_effect(old, new, r),
        Operation::Postpone => compiler_control_operations::postpone_effect(old, new, r),
        Operation::Literal => compiler_control_operations::literal_effect(old, new, r),
        Operation::ReadExecutionToken => compiler_control_operations::read_execution_token_effect(old, new, r),
        Operation::Body => compiler_control_operations::body_effect(old, new, r),
        Operation::GetExecutionToken => compiler_control_operations::get_execution_token_effect(old, new, r),
        Operation::AbsorbComment(c) => compiler_control_operations::absorb_comment_effect(old, new, c, r),
        Operation::ExecutionModeAddress => compiler_control_operations::execution_mode_address_effect(old, new, r),
        Operation::WriteBranchFalse => compiler_control_operations::write_branch_false_effect(old, new, r),
        Operation::WriteBranch => compiler_control_operations::write_branch_effect(old, new, r),
        Operation::Locals(c) => compiler_control_operations::locals_effect(old, new, c, r),
        Operation::LocalsRuntime => compiler_control_operations::locals_runtime_effect(old, new, r),
        Operation::LocalStubRuntime => compiler_control_operations::local_stub_runtime_effect(old, new, r),
        Operation::PopAndPrint(f) => print_operations::pop_and_print_effect(old, new, f, r),
        Operation::PrintNewline => print_operations::print_newline_effect(old, new, r),
        Operation::PrintString => print_operations::print_string_effect(old, new, r),
        Operation::TypeString => print_operations::type_string_effect(old, new, r),
        Operation::Emit => print_operations::emit_effect(old, new, r),
        Operation::PrintStringRuntime => print_operations::print_string_runtime_effect(old, new, r),
        Operation::GetChar => string_operations::get_char_effect(old, new, r),
        Operation::GetWord => string_operations::get_word_effect(old, new, r),
        Operation::Trailing => string_operations::trailing_effect(old, new, r),
        Operation::CMove => string_operations::cmove_effect(old, new, r),
        Operation::CMoveBackwards => string_operations::cmove_backwards_effect(old, new, r),
        Operation::MoveNoClobber => string_operations::move_noclobber_effect(old, new, r),
        Operation::Accept => string_operations::accept_effect(old, new, r),
        Operation::Count => string_operations::count_effect(old, new, r),
        Operation::Debug => crate::debugging::debugger::debug_effect(old, new, r),
    }
}

/// Whether `op` is one of the stack operations.
pub open spec fn is_stack_operation(op: Operation) -> bool {
    match op {
        Operation::StackToReturnStack(_) | Operation::ReturnStackToStack(_) | Operation::CopyFromReturnStack(_) | Operation::Dup(_) | Operation::MaybeDup(_) | Operation::Drop(_) | Operation::Swap(_) | Operation::Over(_) | Operation::Rot(_) | Operation::NRot(_) | Operation::Nip(_) | Operation::Tuck(_) | Operation::PushStackFrame | Operation::PopStackFrame => true,
        _ => false,
    }
}

/// Whether `op` is one of the arithmetic or memory operations.
pub open spec fn is_memory_operation(op: Operation) -> bool {
    match op {
        Operation::Arithmetic(_, _) | Operation::MemoryWrite(_) | Operation::Dereference(_) | Operation::PopWrite => true,
        _ => false,
    }
}

/// Whether `op` is one of the data operations.
pub open spec fn is_data_operation(op: Operation) -> bool {
    match op {
        Operation::Here | Operation::Allot | Operation::Create | Operation::Does | Operation::Value | Operation::Cells | Operation::To | Operation::MapAnonymous | Operation::Allocate | Operation::Free | Operation::Resize | Operation::Variable(_) | Operation::Constant(_) | Operation::ConstantRuntime(_) | Operation::ToRuntime | Operation::ToLocalRuntime => true,
        _ => false,
    }
}

/// Whether `op` is one of the control-flow operations.
pub open spec fn is_control_flow_operation(op: Operation) -> bool {
    match op {
        Operation::ControlFlowBreak | Operation::DoInitLoop | Operation::LoopPlusCompiletime | Operation::LoopCompiletime | Operation::BeginLoop | Operation::UntilLoop | Operation::AgainLoop | Operation::WhileLoop | Operation::RepeatLoop | Operation::Leave | Operation::Exit | Operation::Throw | Operation::EvaluateString | Operation::LoopRuntime | Operation::LoopEpilogue => true,
        _ => false,
    }
}

/// Whether `op` is one of the compiler operations.
pub open spec fn is_compiler_operation(op: Operation) -> bool {
    match op {
        Operation::Immediate | Operation::SetInterpret | Operation::SetCompile | Operation::StartWordCompilation | Operation::EndWordCompilation | Operation::Postpone | Operation::Literal | Operation::ReadExecutionToken | Operation::Body | Operation::GetExecutionToken | Operation::AbsorbComment(_) | Operation::ExecutionModeAddress | Operation::WriteBranchFalse | Operation::WriteBranch | Operation::Locals(_) | Operation::LocalsRuntime | Operation::LocalStubRuntime => true,
        _ => false,
    }
}

/// Whether `op` is one of the printing, string or debugging operations.
pub open spec fn is_io_operation(op: Operation) -> bool {
    match op {
        Operation::PopAndPrint(_) | Operation::PrintNewline | Operation::PrintString | Operation::TypeString | Operation::Emit | Operation::PrintStringRuntime | Operation::GetChar | Operation::GetWord | Operation::Trailing | Operation::CMove | Operation::CMoveBackwards | Operation::MoveNoClobber | Operation::Accept | Operation::Count | Operation::Debug => true,
        _ => false,
    }
}

/// Runs a stack operation.
fn run_stack_operation(op: Operation, state: &mut ForthState) -> (r: ForthResult)
    requires old(state).wf(),
    ensures
        final(state).wf(),
        final(state).config == old(state).config,
        final(state).stack.spec_stack_base() == old(state).stack.spec_stack_base(),
        final(state).return_stack.spec_stack_base() == old(state).return_stack.spec_stack_base(),
        final(state).data_space.spec_base_address() == old(state).data_space.spec_base_address(),
        is_stack_operation(op) ==> operation_effect(op, old(state), final(state), r),
        !is_stack_operation(op) ==> r == Err::<(), Error>(Error::InvalidExecutionToken) && *final(state) == *old(state),
        kept_output(&old(state).output_stream, &final(state).output_stream),
{
    match op {
        Operation::StackToReturnStack(w) => match w {
            Width::Single => stack_operations::stack_to_return_stack::<Value>(state),
            Width::Double => stack_operations::stack_to_return_stack::<DoubleValue>(state),
        },
        Operation::ReturnStackToStack(w) => match w {
            Width::Single => stack_operations::return_stack_to_stack::<Value>(state),
            Width::Double => stack_operations::return_stack_to_stack::<DoubleValue>(state),
        },
        Operation::CopyFromReturnStack(w) => match w {
            Width::Single => stack_operations::copy_from_return_stack::<Value>(state),
            Width::Double => stack_operations::copy_from_return_stack::<DoubleValue>(state),
        },
        Operation::Dup(w) => match w {
            Width::Single => stack_operations::dup::<Value>(state),
            Width::Double => stack_operations::dup::<DoubleValue>(state),
        },
        Operation::MaybeDup(w) => match w {
            Width::Single => stack_operations::maybe_dup::<Value>(state),
            Width::Double => stack_operations::maybe_dup::<DoubleValue>(state),
        },
        Operation::Drop(w) => match w {
            Width::Single => stack_operations::drop::<Value>(state),
            Width::Double => stack_operations::drop::<DoubleValue>(state),
        },
        Operation::Swap(w) => match w {
            Width::Single => stack_operations::swap::<Value>(state),
            Width::Double => stack_operations::swap::<DoubleValue>(state),
        },
        Operation::Over(w) => match w {
            Width::Single => stack_operations::over::<Value>(state),
            Width::Double => stack_operations::over::<DoubleValue>(state),
        },
        Operation::Rot(w) => match w {
            Width::Single => stack_operations::rot::<Value>(state),
            Width::Double => stack_operations::rot::<DoubleValue>(state),
        },
        Operation::NRot(w) => match w {
            Width::Single => stack_operations::nrot::<Value>(state),
            Width::Double => stack_operations::nrot::<DoubleValue>(state),
        },
        Operation::Nip(w) => match w {
            Width::Single => stack_operations::nip::<Value>(state),
            Width::Double => stack_operations::nip::<DoubleValue>(state),
        },
        Operation::Tuck(w) => match w {
            Width::Single => stack_operations::tuck::<Value>(state),
            Width::Double => stack_operations::tuck::<DoubleValue>(state),
        },
        Operation::PushStackFrame => stack_operations::push_stack_frame(state),
        Operation::PopStackFrame => stack_operations::pop_stack_frame(state),
        _ => Err(Error::InvalidExecutionToken),
    }
}

/// Runs an arithmetic or memory operation.
fn run_memory_operation(op: Operation, state: &mut ForthState) -> (r: ForthResult)
    requires old(state).wf(),
    ensures
        final(state).wf(),
        final(state).config == old(state).config,
        final(state).stack.spec_stack_base() == old(state).stack.spec_stack_base(),
        final(state).return_stack.spec_stack_base() == old(state).return_stack.spec_stack_base(),
        final(state).data_space.spec_base_address() == old(state).data_space.spec_base_address(),
        is_memory_operation(op) ==> operation_effect(op, old(state), final(state), r),
        !is_memory_operation(op) ==> r == Err::<(), Error>(Error::InvalidExecutionToken) && *final(state) == *old(state),
        kept_output(&old(state).output_stream, &final(state).output_stream),
{
    match op {
        Operation::Arithmetic(a, g) => arithmetic_operations::arithmetic(state, a, g),
        Operation::MemoryWrite(w) => match w {
            MemoryWidth::Cell => memory_operations::memory_write::<Value>(state),
            MemoryWidth::Byte => memory_operations::memory_write::<Byte>(state),
            MemoryWidth::Double => memory_operations::memory_write::<DoubleValue>(state),
        },
        Operation::Dereference(w) => match w {
            MemoryWidth::Cell => memory_operations::dereference::<Value>(state),
            MemoryWidth::Byte => memory_operations::dereference::<Byte>(state),
            MemoryWidth::Double => memory_operations::dereference::<DoubleValue>(state),
        },
        Operation::PopWrite => memory_operations::pop_write(state),
        _ => Err(Error::InvalidExecutionToken),
    }
}

/// Runs a data operation.
fn run_data_operation(op: Operation, state: &mut ForthState) -> (r: ForthResult)
    requires old(state).wf(),
    ensures
        final(state).wf(),
        final(state).config == old(state).config,
        final(state).stack.spec_stack_base() == old(state).stack.spec_stack_base(),
        final(state).return_stack.spec_stack_base() == old(state).return_stack.spec_stack_base(),
        final(state).data_space.spec_base_address() == old(state).data_space.spec_base_address(),
        is_data_operation(op) ==> operation_effect(op, old(state), final(state), r),
        !is_data_operation(op) ==> r == Err::<(), Error>(Error::InvalidExecutionToken) && *final(state) == *old(state),
        kept_output(&old(state).output_stream, &final(state).output_stream),
{
    match op {
        Operation::Here => data_operations::here(state),
        Operation::Allot => data_operations::allot(state),
        Operation::Create => data_operations::create(state),
        Operation::Does => data_operations::does(state),
        Operation::Value => data_operations::value(state),
        Operation::Cells => data_operations::cells(state),
        Operation::To => data_operations::to(state),
        Operation::MapAnonymous => data_operations::map_anonymous(state),
        Operation::Allocate => data_operations::allocate(state),
        Operation::Free => data_operations::free(state),
        Operation::Resize => data_operations::resize(state),
        Operation::Variable(w) => match w {
            Width::Single => data_operations::variable::<Value>(state),
            Width::Double => data_operations::variable::<DoubleValue>(state),
        },
        Operation::Constant(w) => match w {
            Width::Single => data_operations::constant::<Value>(state, w),
            Width::Double => data_operations::constant::<DoubleValue>(state, w),
        },
        Operation::ConstantRuntime(w) => match w {
            Width::Single => data_operations::constant_runtime::<Value>(state),
            Width::Double => data_operations::constant_runtime::<DoubleValue>(state),
        },
        Operation::ToRuntime => data_operations::to_runtime(state),
        Operation::ToLocalRuntime => data_operations::to_local_runtime(state),
        _ => Err(Error::InvalidExecutionToken),
    }
}

/// Runs a control-flow operation.
fn run_control_flow_operation(op: Operation, state: &mut ForthState) -> (r: ForthResult)
    requires old(state).wf(),
    ensures
        final(state).wf(),
        final(state).config == old(state).config,
        final(state).stack.spec_stack_base() == old(state).stack.spec_stack_base(),
        final(state).return_stack.spec_stack_base() == old(state).return_stack.spec_stack_base(),
        final(state).data_space.spec_base_address() == old(state).data_space.spec_base_address(),
        is_control_flow_operation(op) ==> operation_effect(op, old(state), final(state), r),
        !is_control_flow_operation(op) ==> r == Err::<(), Error>(Error::InvalidExecutionToken) && *final(state) == *old(state),
        kept_output(&old(state).output_stream, &final(state).output_stream),
{
    match op {
        Operation::ControlFlowBreak => control_flow_operations::control_flow_break(state),
        Operation::DoInitLoop => control_flow_operations::do_init_loop(state),
        Operation::LoopPlusCompiletime => control_flow_operations::loop_plus_compiletime(state),
        Operation::LoopCompiletime => control_flow_operations::loop_compiletime(state),
        Operation::BeginLoop => control_flow_operations::begin_loop(state),
        Operation::UntilLoop => control_flow_operations::until_loop(state),
        Operation::AgainLoop => control_flow_operations::again_loop(state),
        Operation::WhileLoop => control_flow_operations::while_loop(state),
        Operation::RepeatLoop => control_flow_operations::repeat_loop(state),
        Operation::Leave => control_flow_operations::leave(state),
        Operation::Exit => control_flow_operations::exit(state),
        Operation::Throw => control_flow_operations::throw(state),
        Operation::EvaluateString => control_flow_operations::evaluate_string(state),
        Operation::LoopRuntime => control_flow_operations::loop_runtime(state),
        Operation::LoopEpilogue => control_flow_operations::loop_epilogue(state),
        _ => Err(Error::InvalidExecutionToken),
    }
}

/// Runs a compiler operation.
fn run_compiler_operation(op: Operation, state: &mut ForthState) -> (r: ForthResult)
    requires old(state).wf(),
    ensures
        final(state).wf(),
        final(state).config == old(state).config,
        final(state).stack.spec_stack_base() == old(state).stack.spec_stack_base(),
        final(state).return_stack.spec_stack_base() == old(state).return_stack.spec_stack_base(),
        final(state).data_space.spec_base_address() == old(state).data_space.spec_base_address(),
        is_compiler_operation(op) ==> operation_effect(op, old(state), final(state), r),
        !is_compiler_operation(op) ==> r == Err::<(), Error>(Error::InvalidExecutionToken) && *final(state) == *old(state),
        kept_output(&old(state).output_stream, &final(state).output_stream),
{
    match op {
        Operation::Immediate => compiler_control_operations::immedate(state),
        Operation::SetInterpret => compiler_control_operations::set_interpret(state),
        Operation::SetCompile => compiler_control_operations::set_compile(state),
        Operation::StartWordCompilation => compiler_control_operations::start_word_compilation(state),
        Operation::EndWordCompilation => compiler_control_operations::end_word_compilation(state),
        Operation::Postpone => compiler_control_operations::postpone(state),
        Operation::Literal => compiler_control_operations::literal(state),
        Operation::ReadExecutionToken => compiler_control_operations::read_execution_token(state),
        Operation::Body => compiler_control_operations::body(state),
        Operation::GetExecutionToken => compiler_control_operations::get_execution_token(state),
        Operation::AbsorbComment(c) => compiler_control_operations::absorb_comment(state, c),
        Operation::ExecutionModeAddress => compiler_control_operations::execution_mode_address(state),
        Operation::WriteBranchFalse => compiler_control_operations::write_branch_false(state),
        Operation::WriteBranch => compiler_control_operations::write_branch(state),
        Operation::Locals(c) => compiler_control_operations::locals(state, c),
        Operation::LocalsRuntime => compiler_control_operations::locals_runtime(state),
        Operation::LocalStubRuntime => compiler_control_operations::local_stub_runtime(state),
        _ => Err(Error::InvalidExecutionToken),
    }
}

/// Runs a printing or string operation.
fn run_io_operation(op: Operation, state: &mut ForthState) -> (r: ForthResult)
    requires old(state).wf(),
    ensures
        final(state).wf(),
        final(state).config == old(state).config,
        final(state).stack.spec_stack_base() == old(state).stack.spec_stack_base(),
        final(state).return_stack.spec_stack_base() == old(state).return_stack.spec_stack_base(),
        final(state).data_space.spec_base_address() == old(state).data_space.spec_base_address(),
        is_io_operation(op) ==> operation_effect(op, old(state), final(state), r),
        !is_io_operation(op) ==> r == Err::<(), Error>(Error::InvalidExecutionToken) && *final(state) == *old(state),
        kept_output(&old(state).output_stream, &final(state).output_stream),
{
    match op {
        Operation::PopAndPrint(f) => print_operations::pop_and_print(state, f),
        Operation::PrintNewline => print_operations::print_newline(state),
        Operation::PrintString => print_operations::print_string(state),
        Operation::TypeString => print_operations::type_string(state),
        Operation::Emit => print_operations::emit(state),
        Operation::PrintStringRuntime => print_operations::print_string_runtime(state),
        Operation::GetChar => string_operations::get_char(state),
        Operation::GetWord => string_operations::get_word(state),
        Operation::Trailing => string_operations::trailing(state),
        Operation::CMove => string_operations::cmove(state),
        Operation::CMoveBackwards => string_operations::cmove_backwards(state),
        Operation::MoveNoClobber => string_operations::move_noclobber(state),
        Operation::Accept => string_operations::accept(state),
        Operation::Count => string_operations::count(state),
        Operation::Debug => crate::debugging::debugger::debug(state),
        _ => Err(Error::InvalidExecutionToken),
    }
}

/// Runs a built-in operation.
pub fn execute_operation(op: Operation, state: &mut ForthState) -> (r: ForthResult)
    requires old(state).wf(),
    ensures
        final(state).wf(),
        final(state).config == old(state).config,
        final(state).stack.spec_stack_base() == old(state).stack.spec_stack_base(),
        final(state).return_stack.spec_stack_base() == old(state).return_stack.spec_stack_base(),
        final(state).data_space.spec_base_address() == old(state).data_space.spec_base_address(),
        operation_effect(op, old(state), final(state), r),
        kept_output(&old(state).output_stream, &final(state).output_stream),
    decreases operation_rank(op), 1int,
{
    match op {
        Operation::Execute => compiler_control_operations::execute(state),
        Operation::StackToReturnStack(_) | Operation::ReturnStackToStack(_) | Operation::CopyFromReturnStack(_)
        | Operation::Dup(_) | Operation::MaybeDup(_) | Operation::Drop(_) | Operation::Swap(_) | Operation::Over(_)
        | Operation::Rot(_) | Operation::NRot(_) | Operation::Nip(_) | Operation::Tuck(_) | Operation::PushStackFrame
        | Operation::PopStackFrame => run_stack_operation(op, state),
        Operation::Arithmetic(_, _) | Operation::MemoryWrite(_) | Operation::Dereference(_) | Operation::PopWrite => run_memory_operation(op, state),
        Operation::Here | Operation::Allot | Operation::Create | Operation::Does | Operation::Value | Operation::Cells
        | Operation::To | Operation::MapAnonymous | Operation::Allocate | Operation::Free | Operation::Resize
        | Operation::Variable(_) | Operation::Constant(_) | Operation::ConstantRuntime(_) | Operation::ToRuntime
        | Operation::ToLocalRuntime => run_data_operation(op, state),
        Operation::ControlFlowBreak | Operation::DoInitLoop | Operation::LoopPlusCompiletime | Operation::LoopCompiletime
        | Operation::BeginLoop | Operation::UntilLoop | Operation::AgainLoop | Operation::WhileLoop
        | Operation::RepeatLoop | Operation::Leave | Operation::Exit | Operation::Throw | Operation::EvaluateString
        | Operation::LoopRuntime | Operation::LoopEpilogue => run_control_flow_operation(op, state),
        Operation::Immediate | Operation::SetInterpret | Operation::SetCompile | Operation::StartWordCompilation
        | Operation::EndWordCompilation | Operation::Postpone | Operation::Literal | Operation::ReadExecutionToken
        | Operation::Body | Operation::GetExecutionToken | Operation::AbsorbComment(_)
        | Operation::ExecutionModeAddress | Operation::WriteBranchFalse | Operation::WriteBranch | Operation::Locals(_)
        | Operation::LocalsRuntime | Operation::LocalStubRuntime => run_compiler_operation(op, state),
        _ => run_io_operation(op, state),
    }
}

/// The built-in words: each name, whether it is immediate, and its operation.
pub open spec fn operation_table() -> Seq<(&'static str, bool, Operation)> {
    arithmetic_operations::operation_table()
        + memory_operations::operation_table()
        + stack_operations::operation_table()
        + data_operations::operation_table()
        + control_flow_operations::operation_table()
        + compiler_control_operations::operation_table()
        + print_operations::operation_table()
        + string_operations::operation_table()
}

/// All built-in words with their names and whether they are immediate.
pub fn get_operations() -> (r: Vec<(&'static str, bool, Operation)>)
    ensures r@ == operation_table(),
{
    let mut all = arithmetic_operations::get_operations();
    let mut more = memory_operations::get_operations();
    all.append(&mut more);
    let mut more = stack_operations::get_operations();
    all.append(&mut more);
    let mut more = data_operations::get_operations();
    all.append(&mut more);
    let mut more = control_flow_operations::get_operations();
    all.append(&mut more);
    let mut more = compiler_control_operations::get_operations();
    all.append(&mut more);
    let mut more = print_operations::get_operations();
    all.append(&mut more);
    let mut more = string_operations::get_operations();
    all.append(&mut more);
    all
}

/// Words defined in Forth itself when a machine starts.
pub const UNCOMPILED_OPERATIONS: [&'static str; 7] = [
    ": IF HERE 1 ALLOT ; IMMEDIATE",
    ": ELSE POSTPONE 0 HERE 1 ALLOT SWAP HERE _BNE ; IMMEDIATE",
    ": THEN HERE _BNE ; IMMEDIATE",
    ": I R> R> R@ SWAP >R SWAP >R ;",
    ": [CHAR] CHAR POSTPONE LITERAL ; IMMEDIATE",
    ": CELL+ 1 CELLS + ;",
    ": 1+ 1 + ;",
];

} // verus!
