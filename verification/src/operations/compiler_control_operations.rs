use vstd::prelude::*;
use vstd::string::*;
use crate::environment::memory::Address;
use crate::environment::units::{Bytes, Cells, CELL_SIZE};
use crate::environment::value::{Value, ValueVariant};
use crate::environment::memory::{lemma_one_cell_written, read_result, MemorySegment};
use crate::compiled_instructions::instruction_compiler::relative_offset;
use crate::environment::stack::{Stack, frame_address};
use crate::evaluate::definition::{Definition, ExecutionToken, text_definition};
use crate::compiled_instructions::CompiledInstruction;
use crate::evaluate::execution::{lemma_write_frame, memory_fields, Field};
use crate::evaluate::{Error, ExecutionMode, ForthResult, ForthState};
use crate::io::tokens::{Token, after_token, next_token_text, next_word_text, upper_text};
use crate::operations::control_flow_operations::{op_cell, postpone_operation};
use crate::operations::memory_operations::{address_of, pop_address};
use crate::operations::stack_operations::{group, stack_to_return_stack};
use crate::operations::{closing_char, execute_operation, ClosingToken, Operation};

use crate::io::output_stream::kept_output;

verus! {

/// What `immedate` does to a machine, and what it answers.
pub open spec fn immedate_effect(old: &ForthState, new: &ForthState, r: ForthResult) -> bool {
    &&& (new.wf())
    &&& (new.unchanged_except(old, set![Field::Definitions]))
    &&& (old.definitions.spec_definitions().len() > 0 ==> r is Ok)
    &&& (old.definitions.spec_definitions().len() == 0 ==> r == Err::<(), Error>(Error::InvalidWord))
    &&& (old.definitions.spec_definitions().len() > 0 ==> {
        let defs = old.definitions.spec_definitions();
        let k = old.definitions.spec_most_recent() as int;
        &&& new.definitions.spec_names() == old.definitions.spec_names()
        &&& new.definitions.spec_definitions() == defs.update(
            k,
            Definition { immediate: true, execution_token: defs[k].execution_token },
        )
    })
}

/// Marks the latest definition as immediate (`IMMEDIATE`).
pub fn immedate(state: &mut ForthState) -> (r: ForthResult)
    requires old(state).wf(),
    ensures
        immedate_effect(old(state), final(state), r),
{
    if state.definitions.get_by_index(0).is_err() {
        return Err(Error::InvalidWord);
    }
    state.definitions.make_most_recent_immediate();
    Ok(())
}

/// What `set_interpret` does to a machine, and what it answers.
pub open spec fn set_interpret_effect(old: &ForthState, new: &ForthState, r: ForthResult) -> bool {
    &&& (r is Ok)
    &&& (new.wf())
    &&& (new.unchanged_except(old, set![Field::Mode]))
    &&& (new.spec_execution_mode() == ExecutionMode::Interpret)
}

/// Switches to interpreting (`[`).
pub fn set_interpret(state: &mut ForthState) -> (r: ForthResult)
    requires old(state).wf(),
    ensures
        set_interpret_effect(old(state), final(state), r),
{
    state.set_interpretmode()
}

/// What `set_compile` does to a machine, and what it answers.
pub open spec fn set_compile_effect(old: &ForthState, new: &ForthState, r: ForthResult) -> bool {
    &&& (r is Ok)
    &&& (new.wf())
    &&& (new.unchanged_except(old, set![Field::Mode]))
    &&& (new.spec_execution_mode() == ExecutionMode::Compile)
}

/// Switches to compiling (`]`).
pub fn set_compile(state: &mut ForthState) -> (r: ForthResult)
    requires old(state).wf(),
    ensures
        set_compile_effect(old(state), final(state), r),
{
    state.set_compilemode()
}

/// What `start_word_compilation` does to a machine, and what it answers.
pub open spec fn start_word_compilation_effect(old: &ForthState, new: &ForthState, r: ForthResult) -> bool {
    &&& (new.wf())
    &&& (new.unchanged_except(old, set![Field::Input, Field::Definitions, Field::Mode]))
    &&& (r is Ok ==> new.spec_execution_mode() == ExecutionMode::Compile
                && new.definitions.spec_definitions() == old.definitions.spec_definitions().push(
                Definition { execution_token: ExecutionToken::Definition(old.spec_here()), immediate: false },
            ))
    &&& (next_word_text(old.input_stream.spec_rest()) matches Err(e) ==> r == Err::<(), Error>(e))
    &&& (next_word_text(old.input_stream.spec_rest()) is Ok ==> r is Ok)
}

/// Reads a name, defines it as the code compiled from here on, and starts compiling (`:`).
pub fn start_word_compilation(state: &mut ForthState) -> (r: ForthResult)
    requires old(state).wf(),
    ensures
        start_word_compilation_effect(old(state), final(state), r),
{
    let word = match state.input_stream.next_word() {
        Ok(w) => w,
        Err(e) => {
            return Err(e);
        },
    };
    let top = state.here_address();
    state.definitions.add(word, Definition::new(ExecutionToken::Definition(top), false));
    set_compile(state)
}

/// What `end_word_compilation` does to a machine, and what it answers.
pub open spec fn end_word_compilation_effect(old: &ForthState, new: &ForthState, r: ForthResult) -> bool {
    &&& (new.wf())
    &&& (new.unchanged_except(old, set![Field::DataSpace, Field::Definitions, Field::Mode]))
    &&& (r is Ok ==> new.spec_execution_mode() == ExecutionMode::Interpret
                && new.data_space.view() == old.data_space.view().push(op_cell(Operation::ControlFlowBreak))
                && new.definitions.spec_temp_names().len() == 0)
    &&& (old.data_room(2) <==> r is Ok)
    &&& (!old.data_room(2) ==> r == Err::<(), Error>(Error::InsufficientMemory))
}

/// Ends a definition (`;`): compiles a return, forgets the locals, and goes back to
/// interpreting.
pub fn end_word_compilation(state: &mut ForthState) -> (r: ForthResult)
    requires old(state).wf(),
    ensures
        end_word_compilation_effect(old(state), final(state), r),
{
    match postpone_operation(state, Operation::ControlFlowBreak) {
        Ok(()) => {},
        Err(e) => {
            return Err(e);
        },
    }
    state.definitions.clear_temp();
    set_interpret(state)
}

/// What `postpone` does to a machine, and what it answers.
pub open spec fn postpone_effect(old: &ForthState, new: &ForthState, r: ForthResult) -> bool {
    &&& (new.wf())
    &&& (new.unchanged_except(old, set![Field::Input, Field::DataSpace, Field::Compiled]))
    &&& (match next_token_text(old.input_stream.spec_rest()) {
                None => r == Err::<(), Error>(Error::NoMoreTokens),
                Some(text) => match text_definition(&old.definitions, text) {
                    None => r matches Err(Error::UnknownWord(u)) && u@ =~= upper_text(text),
                    Some(d) => {
                        let n = old.compiled_instructions@.len();
                        let xt = if d.immediate {
                            d.execution_token
                        } else {
                            ExecutionToken::CompiledInstruction(n as usize)
                        };
                        &&& new.compiled_instructions@ =~= if d.immediate {
                            old.compiled_instructions@
                        } else {
                            old.compiled_instructions@.push(CompiledInstruction::MemPush(Value::ExecutionToken(d.execution_token)))
                        }
                        &&& old.data_room(2) ==> r is Ok && new.data_space@ =~= old.data_space@.push(
                            Value::ExecutionToken(xt),
                        )
                        &&& !old.data_room(2) ==> r == Err::<(), Error>(Error::InsufficientMemory)
                    },
                },
            })
}

/// Compiles the next word into the current definition (`POSTPONE`): an immediate word is
/// compiled to run; any other word is compiled to be compiled.
pub fn postpone(state: &mut ForthState) -> (r: ForthResult)
    requires old(state).wf(),
    ensures
        postpone_effect(old(state), final(state), r),
{
    let token = match state.input_stream.next() {
        Ok(t) => t,
        Err(e) => {
            return Err(e);
        },
    };
    let definition = match state.definitions.get_from_token(token) {
        Ok(d) => d,
        Err(e) => {
            return Err(e);
        },
    };
    let xt = if definition.immediate {
        definition.execution_token
    } else {
        state.compiled_instructions.mem_push(definition.execution_token.value())
    };
    state.push_data(xt)
}

/// What `literal` does to a machine, and what it answers.
pub open spec fn literal_effect(old: &ForthState, new: &ForthState, r: ForthResult) -> bool {
    &&& (new.wf())
    &&& (new.unchanged_except(old, set![Field::Stack, Field::DataSpace, Field::Compiled]))
    &&& (old.stack@.len() == 0 ==> r == Err::<(), Error>(Error::StackUnderflow))
    &&& (old.stack@.len() > 0 && old.data_room(2) ==> r is Ok && new.stack@ == old.stack@.drop_last() && new.compiled_instructions@ == old.compiled_instructions@.push(
                crate::compiled_instructions::CompiledInstruction::Push(old.stack@.last()),
            ) && new.data_space.view() == old.data_space.view().push(
                Value::ExecutionToken(ExecutionToken::CompiledInstruction(old.compiled_instructions@.len() as usize)),
            ))
}

/// Pops a value and compiles pushing it (`LITERAL`).
pub fn literal(state: &mut ForthState) -> (r: ForthResult)
    requires old(state).wf(),
    ensures
        literal_effect(old(state), final(state), r),
{
    let ghost s = state.stack@;
    let value = match state.stack.pop::<Value>() {
        Ok(v) => v,
        Err(e) => {
            return Err(e);
        },
    };
    proof {
        assert(s.skip(s.len() - 1)[0] == s.last());
        assert(s.take(s.len() - 1) =~= s.drop_last());
    }
    let xt = state.compiled_instructions.push(value);
    let r = state.push_data(xt);
    proof {
        let c = Value::ExecutionToken(xt);
        assert(old(state).data_space.view() + seq![c] =~= old(state).data_space.view().push(c));
    }
    r
}

/// What `execute` does to a machine, and what it answers.
pub open spec fn execute_effect(old: &ForthState, new: &ForthState, r: ForthResult) -> bool {
    &&& (new.wf())
    &&& (new.config == old.config)
    &&& (new.stack.spec_stack_base() == old.stack.spec_stack_base())
    &&& (new.return_stack.spec_stack_base() == old.return_stack.spec_stack_base())
    &&& (new.data_space.spec_base_address() == old.data_space.spec_base_address())
    &&& (old.stack@.len() == 0 ==> r == Err::<(), Error>(Error::StackUnderflow))
    &&& (kept_output(&old.output_stream, &new.output_stream))
}

/// Pops an execution token and executes it (`EXECUTE`); tokens that name `EXECUTE` itself
/// pop the next one.
pub fn execute(state: &mut ForthState) -> (r: ForthResult)
    requires old(state).wf(),
    ensures
        execute_effect(old(state), final(state), r),
    decreases 1int, 0int,
{
    let mut xt = match state.stack.pop::<ExecutionToken>() {
        Ok(xt) => xt,
        Err(e) => {
            return Err(e);
        },
    };
    while xt == ExecutionToken::LeafOperation(Operation::Execute)
        invariant
            state.wf(),
            state.config == old(state).config,
            state.stack.spec_stack_base() == old(state).stack.spec_stack_base(),
            state.return_stack.spec_stack_base() == old(state).return_stack.spec_stack_base(),
            state.data_space.spec_base_address() == old(state).data_space.spec_base_address(),
            state.output_stream == old(state).output_stream,
            old(state).stack@.len() > 0,
        decreases state.stack@.len(),
    {
        xt = match state.stack.pop::<ExecutionToken>() {
            Ok(xt) => xt,
            Err(e) => {
                return Err(e);
            },
        };
    }
    match xt {
        ExecutionToken::LeafOperation(op) => execute_operation(op, state),
        _ => state.execute(xt),
    }
}

/// What `read_execution_token` does to a machine, and what it answers.
pub open spec fn read_execution_token_effect(old: &ForthState, new: &ForthState, r: ForthResult) -> bool {
    &&& (new.wf())
    &&& (new.unchanged_except(old, set![Field::Input, Field::Stack]))
    &&& (r is Ok ==> new.stack@.len() == old.stack@.len() + 1)
    &&& (match next_token_text(old.input_stream.spec_rest()) {
                None => r == Err::<(), Error>(Error::NoMoreTokens),
                Some(text) => match text_definition(&old.definitions, text) {
                    None => r matches Err(Error::UnknownWord(u)) && u@ =~= upper_text(text),
                    Some(d) => r is Ok && new.stack@ == old.stack@ + d.execution_token.spec_stack_cells(),
                },
            })
}

/// Reads the next word and pushes its execution token (`'`).
pub fn read_execution_token(state: &mut ForthState) -> (r: ForthResult)
    requires old(state).wf(),
    ensures
        read_execution_token_effect(old(state), final(state), r),
{
    let token = match state.input_stream.next() {
        Ok(t) => t,
        Err(e) => {
            return Err(e);
        },
    };
    let definition = match state.definitions.get_from_token(token) {
        Ok(d) => d,
        Err(e) => {
            return Err(e);
        },
    };
    state.stack.push(definition.execution_token);
    Ok(())
}

/// What `get_execution_token` does to a machine, and what it answers.
pub open spec fn get_execution_token_effect(old: &ForthState, new: &ForthState, r: ForthResult) -> bool {
    &&& (new.wf())
    &&& (new.unchanged_except(old, set![Field::Input, Field::DataSpace, Field::Compiled]))
    &&& (match next_token_text(old.input_stream.spec_rest()) {
                None => r == Err::<(), Error>(Error::NoMoreTokens),
                Some(text) => match text_definition(&old.definitions, text) {
                    None => r matches Err(Error::UnknownWord(u)) && u@ =~= upper_text(text),
                    Some(d) => {
                        let n = old.compiled_instructions@.len();
                        &&& new.compiled_instructions@ =~= old.compiled_instructions@.push(
                            CompiledInstruction::Push(Value::ExecutionToken(d.execution_token)),
                        )
                        &&& old.data_room(2) ==> r is Ok && new.data_space@ =~= old.data_space@.push(
                            Value::ExecutionToken(ExecutionToken::CompiledInstruction(n as usize)),
                        )
                        &&& !old.data_room(2) ==> r == Err::<(), Error>(Error::InsufficientMemory)
                    },
                },
            })
}

/// Reads the next word and compiles pushing its execution token (`[']`).
pub fn get_execution_token(state: &mut ForthState) -> (r: ForthResult)
    requires old(state).wf(),
    ensures
        get_execution_token_effect(old(state), final(state), r),
{
    let token = match state.input_stream.next() {
        Ok(t) => t,
        Err(e) => {
            return Err(e);
        },
    };
    let definition = match state.definitions.get_from_token(token) {
        Ok(d) => d,
        Err(e) => {
            return Err(e);
        },
    };
    let xt = state.compiled_instructions.push(definition.execution_token.value());
    state.push_data(xt)
}

/// Whether `mid` is `old` with its two top cells popped and `instruction` compiled, nothing
/// else changed.
pub open spec fn branch_compiled(old: &ForthState, mid: ForthState, instruction: CompiledInstruction) -> bool {
    &&& old.stack@.len() >= 2
    &&& mid.unchanged_except(old, set![Field::Stack, Field::Compiled])
    &&& mid.stack@ == old.stack@.take(old.stack@.len() - 2)
    &&& mid.compiled_instructions@ == old.compiled_instructions@.push(instruction)
}

/// Whether `after` is `before` once the token `xt` was written at `address`, with the answer `r`.
#[verifier::opaque]
pub open spec fn wrote_token(before: &ForthState, after: &ForthState, address: Address, xt: ExecutionToken, r: ForthResult) -> bool {
    ForthState::spec_write_effect(before, after, address, xt, r)
}

/// What writing a branch does: `instruction` is compiled and its token written at the
/// destination, the cell below the top one.
pub open spec fn branch_answer(old: &ForthState, new: &ForthState, r: ForthResult, instruction: CompiledInstruction) -> bool {
    let s = old.stack@;
    let destination = address_of(s[s.len() - 2]);
    exists|mid: ForthState|
        #[trigger] branch_compiled(old, mid, instruction) && wrote_token(
            &mid,
            new,
            destination,
            ExecutionToken::CompiledInstruction(old.compiled_instructions@.len() as usize),
            r,
        )
}

/// What `write_branch_false` does to a machine, and what it answers.
pub open spec fn write_branch_false_effect(old: &ForthState, new: &ForthState, r: ForthResult) -> bool {
    &&& (new.wf())
    &&& (new.unchanged_except(old, memory_fields().insert(Field::Compiled)))
    &&& (old.stack@.len() < 2 ==> r == Err::<(), Error>(Error::StackUnderflow))
    &&& (old.stack@.len() >= 2 ==> branch_answer(
        old,
        new,
        r,
        CompiledInstruction::BranchFalse(address_of(old.stack@.last())),
    ))
}

/// Pops a branch target and a destination, and writes there a conditional branch to the
/// target (`_BNE`).
pub fn write_branch_false(state: &mut ForthState) -> (r: ForthResult)
    requires old(state).wf(),
    ensures
        write_branch_false_effect(old(state), final(state), r),
{
    let ghost s = state.stack@;
    let target = match pop_address(state) {
        Ok(a) => a,
        Err(e) => {
            return Err(e);
        },
    };
    let ghost s1 = state.stack@;
    let destination = match pop_address(state) {
        Ok(a) => a,
        Err(e) => {
            return Err(e);
        },
    };
    let xt = state.compiled_instructions.branch_false(target);
    let ghost mid = *state;
    proof {
        assert(s1.last() == s[s.len() - 2]);
        assert(mid.stack@ =~= s.take(s.len() - 2));
        assert(branch_compiled(old(state), mid, CompiledInstruction::BranchFalse(target)));
    }
    let r = state.write(destination, xt);
    proof {
        lemma_write_frame(&mid, state, destination, xt, r);
        reveal(wrote_token);
        assert(wrote_token(&mid, state, destination, xt, r));
    }
    r
}

/// What `write_branch` does to a machine, and what it answers.
pub open spec fn write_branch_effect(old: &ForthState, new: &ForthState, r: ForthResult) -> bool {
    &&& (new.wf())
    &&& (new.unchanged_except(old, memory_fields().insert(Field::Compiled)))
    &&& (old.stack@.len() < 2 ==> r == Err::<(), Error>(Error::StackUnderflow))
    &&& (old.stack@.len() >= 2 ==> branch_answer(
        old,
        new,
        r,
        CompiledInstruction::Branch(address_of(old.stack@.last())),
    ))
}

/// Pops a branch target and a destination, and writes there a branch to the target (`_B`).
pub fn write_branch(state: &mut ForthState) -> (r: ForthResult)
    requires old(state).wf(),
    ensures
        write_branch_effect(old(state), final(state), r),
{
    let ghost s = state.stack@;
    let target = match pop_address(state) {
        Ok(a) => a,
        Err(e) => {
            return Err(e);
        },
    };
    let ghost s1 = state.stack@;
    let destination = match pop_address(state) {
        Ok(a) => a,
        Err(e) => {
            return Err(e);
        },
    };
    let xt = state.compiled_instructions.branch(target);
    let ghost mid = *state;
    proof {
        assert(s1.last() == s[s.len() - 2]);
        assert(mid.stack@ =~= s.take(s.len() - 2));
        assert(branch_compiled(old(state), mid, CompiledInstruction::Branch(target)));
    }
    let r = state.write(destination, xt);
    proof {
        lemma_write_frame(&mid, state, destination, xt, r);
        reveal(wrote_token);
        assert(wrote_token(&mid, state, destination, xt, r));
    }
    r
}

/// What `body` does to a machine, and what it answers.
pub open spec fn body_effect(old: &ForthState, new: &ForthState, r: ForthResult) -> bool {
    &&& (new.wf())
    &&& (new.unchanged_except(old, set![Field::Stack]))
    &&& (({
                let s = old.stack@;
                if s.len() == 0 {
                    r == Err::<(), Error>(Error::StackUnderflow)
                } else {
                    match s.last() {
                        Value::Number(_) => r == Err::<(), Error>(Error::InvalidExecutionToken),
                        Value::ExecutionToken(xt) => r is Ok && new.stack@ == s.drop_last().push(
                            match xt {
                                ExecutionToken::Definition(a) => Value::Number(a.raw() as i64),
                                ExecutionToken::Number(i) => Value::Number(i),
                                _ => Value::ExecutionToken(xt),
                            },
                        ),
                    }
                }
            }))
}

/// Replaces an execution token by the address of its definition, or the number it pushes
/// (`>BODY`).
pub fn body(state: &mut ForthState) -> (r: ForthResult)
    requires old(state).wf(),
    ensures
        body_effect(old(state), final(state), r),
{
    let ghost s = state.stack@;
    let xt = match state.stack.pop::<ExecutionToken>() {
        Ok(xt) => xt,
        Err(e) => {
            return Err(e);
        },
    };
    proof {
        assert(s.skip(s.len() - 1)[0] == s.last());
        assert(s.take(s.len() - 1) =~= s.drop_last());
    }
    match xt {
        ExecutionToken::Definition(address) => state.stack.push(address),
        ExecutionToken::Number(i) => state.stack.push(i),
        _ => state.stack.push(xt),
    }
    proof {
        assert(state.stack@ =~= s.drop_last().push(
            match xt {
                ExecutionToken::Definition(a) => Value::Number(a.raw() as i64),
                ExecutionToken::Number(i) => Value::Number(i),
                _ => Value::ExecutionToken(xt),
            },
        ));
    }
    Ok(())
}

/// What `absorb_comment` does to a machine, and what it answers.
pub open spec fn absorb_comment_effect(old: &ForthState, new: &ForthState, closing: ClosingToken, r: ForthResult) -> bool {
    &&& (new.wf())
    &&& (new.unchanged_except(old, set![Field::Input]))
    &&& (({
                let rest = old.input_stream.spec_rest();
                let k = find_char(rest, closing_char(closing), 0);
                if k >= 0 {
                    r is Ok && new.input_stream.spec_rest() == rest.skip(k + 1)
                } else {
                    r == Err::<(), Error>(Error::NoMoreTokens) && new.input_stream.spec_rest().len() == 0
                }
            }))
}

/// Skips input up to and including the closing character (`(`, `\\`).
pub fn absorb_comment(state: &mut ForthState, closing: ClosingToken) -> (r: ForthResult)
    requires old(state).wf(),
    ensures
        absorb_comment_effect(old(state), final(state), closing, r),
{
    let c = closing_to_char(closing);
    let ghost rest = state.input_stream.spec_rest();
    let ghost mut consumed: int = 0;
    loop
        invariant
            state.wf(),
            state.unchanged_except(old(state), set![Field::Input]),
            0 <= consumed <= rest.len(),
            state.input_stream.spec_rest() == rest.skip(consumed),
            find_char(rest, c, 0) == find_char(rest, c, consumed as nat),
            rest == old(state).input_stream.spec_rest(),
            c == closing_char(closing),
        decreases rest.len() - consumed,
    {
        match state.input_stream.next_char() {
            Ok(next) => {
                proof {
                    assert(rest.skip(consumed)[0] == rest[consumed]);
                    assert(rest.skip(consumed).skip(1) =~= rest.skip(consumed + 1));
                    consumed = consumed + 1;
                }
                if next == c {
                    return Ok(());
                }
            },
            Err(_) => {
                return Err(Error::NoMoreTokens);
            },
        }
    }
}

/// The first position at or after `i` where `s` holds `c`, or -1.
pub open spec fn find_char(s: Seq<char>, c: char, i: nat) -> int
    decreases s.len() - i,
{
    if i >= s.len() {
        -1
    } else if s[i as int] == c {
        i as int
    } else {
        find_char(s, c, i + 1)
    }
}

/// The character that ends a comment or a list of locals.
pub fn closing_to_char(closing: ClosingToken) -> (r: char)
    ensures r == closing_char(closing),
{
    match closing {
        ClosingToken::CurlyBracket => '}',
        ClosingToken::NewLine => '\n',
        ClosingToken::Parenthesis => ')',
        ClosingToken::Pipe => '|',
    }
}

/// What `execution_mode_address` does to a machine, and what it answers.
pub open spec fn execution_mode_address_effect(old: &ForthState, new: &ForthState, r: ForthResult) -> bool {
    &&& (r is Ok)
    &&& (new.wf())
    &&& (new.unchanged_except(old, set![Field::Stack]))
    &&& (new.stack@ == old.stack@.push(
                Value::Number(old.internal_state_memory.execution_mode.address.raw() as i64),
            ))
}

/// Pushes the address of the cell that holds the execution mode (`STATE`).
pub fn execution_mode_address(state: &mut ForthState) -> (r: ForthResult)
    requires old(state).wf(),
    ensures
        execution_mode_address_effect(old(state), final(state), r),
{
    let address = state.internal_state_memory().execution_mode.address;
    state.stack.push(address);
    assert(state.stack@ =~= old(state).stack@.push(
        Value::Number(old(state).internal_state_memory.execution_mode.address.raw() as i64),
    ));
    Ok(())
}

/// Whether a word is exactly the closing character.
fn is_closing_word(word: &String, c: char) -> (r: bool)
    ensures r == (word@.len() == 1 && word@[0] == c),
{
    let w = word.as_str();
    w.unicode_len() == 1 && w.get_char(0) == c
}

/// The local names that reading `rest` gives up to the word made of the closing character
/// `c` alone, with what is left after that word; or the error that stopped the reading.
pub open spec fn local_names(rest: Seq<char>, c: char) -> Result<(Seq<Seq<char>>, Seq<char>), Error>
    decreases rest.len(),
{
    match next_word_text(rest) {
        Err(e) => Err(e),
        Ok(w) => if w.len() == 1 && w[0] == c {
            Ok((Seq::empty(), after_token(rest)))
        } else if after_token(rest).len() < rest.len() {
            names_after(seq![w], local_names(after_token(rest), c))
        } else {
            Err(Error::NoMoreTokens)
        },
    }
}

/// `names` in front of the names of a reading, or the reading's error.
pub open spec fn names_after(
    names: Seq<Seq<char>>,
    reading: Result<(Seq<Seq<char>>, Seq<char>), Error>,
) -> Result<(Seq<Seq<char>>, Seq<char>), Error> {
    match reading {
        Ok((more, left)) => Ok((names + more, left)),
        Err(e) => Err(e),
    }
}

/// The temporary definition that `locals` gives the local at `offset`: a word whose stub
/// starts `3 + 2 * offset` cells past the end of `old`'s data space.
pub open spec fn local_stub_definition(old: &ForthState, offset: int) -> Definition {
    Definition {
        immediate: false,
        execution_token: ExecutionToken::Definition(
            Address::spec_from_raw(
                old.data_space.spec_base_address().raw() + (old.data_space.spec_length() + 3 + 2 * offset)
                    * CELL_SIZE,
            ),
        ),
    }
}

/// The cells of `count` local stubs: for each local its offset in the frame, then the
/// run-time part of the stub.
pub open spec fn local_stub_cells(count: nat) -> Seq<Value> {
    Seq::new(
        2 * count,
        |i: int|
            if i % 2 == 0 {
                Value::ExecutionToken(ExecutionToken::Number((i / 2) as i64))
            } else {
                op_cell(Operation::LocalStubRuntime)
            },
    )
}

/// The cells `locals` compiles for `count` locals, whose jump over the stubs is compiled
/// instruction `branch`: the count, the run-time entry, the jump, then the stubs.
pub open spec fn locals_cells(count: nat, branch: nat) -> Seq<Value> {
    seq![
        Value::ExecutionToken(ExecutionToken::Number(count as i64)),
        op_cell(Operation::LocalsRuntime),
        Value::ExecutionToken(ExecutionToken::CompiledInstruction(branch as usize)),
    ] + local_stub_cells(count)
}

/// The jump `locals` compiles over the stubs of `count` locals, from the third cell past the
/// end of `old`'s data space to the end of the stubs.
pub open spec fn locals_jump(old: &ForthState, count: nat) -> CompiledInstruction {
    let base = old.data_space.spec_base_address().raw();
    let length = old.data_space.spec_length();
    let offset = relative_offset(
        Address::spec_from_raw(base + (length + 2) * CELL_SIZE),
        Address::spec_from_raw(base + (length + 3 + 2 * count) * CELL_SIZE),
    );
    CompiledInstruction::RelativeBranch(offset.0, offset.1)
}

/// What `locals` does to a machine, and what it answers.
pub open spec fn locals_effect(old: &ForthState, new: &ForthState, closing: ClosingToken, r: ForthResult) -> bool {
    &&& (new.wf())
    &&& (new.unchanged_except(
        old,
        set![Field::DataSpace, Field::Definitions, Field::Compiled, Field::Input],
    ))
    &&& (match local_names(old.input_stream.spec_rest(), closing_char(closing)) {
        Err(e) => {
            &&& r == Err::<(), Error>(e)
            &&& new.definitions == old.definitions
            &&& new.data_space == old.data_space
            &&& new.compiled_instructions == old.compiled_instructions
        },
        Ok((names, left)) => {
            &&& new.input_stream.spec_rest() == left
            &&& (old.data_room(4 + 2 * names.len()) ==> r is Ok)
            &&& (r is Err ==> r == Err::<(), Error>(Error::InsufficientMemory) || r == Err::<(), Error>(
                Error::InvalidAddress,
            ))
            &&& (r is Ok ==> {
                &&& new.definitions.spec_names() == old.definitions.spec_names()
                &&& new.definitions.spec_definitions() == old.definitions.spec_definitions()
                &&& new.definitions.spec_most_recent() == old.definitions.spec_most_recent()
                &&& new.definitions.spec_temp_names() == old.definitions.spec_temp_names() + names
                &&& new.definitions.spec_temp_definitions() == old.definitions.spec_temp_definitions()
                    + Seq::new(names.len(), |i: int| local_stub_definition(old, i))
                &&& new.data_space.spec_length() == old.data_space.spec_length() + 3 + 2 * names.len()
                &&& new.data_space.view() == old.data_space.view() + locals_cells(
                    names.len(),
                    old.compiled_instructions@.len(),
                )
                &&& new.compiled_instructions@ == old.compiled_instructions@.push(locals_jump(old, names.len()))
            })
        },
    })
}

/// The names of `names`, as text.
pub open spec fn name_texts(names: Seq<String>) -> Seq<Seq<char>> {
    names.map_values(|s: String| s@)
}

/// Reads local names up to the closing word (`LOCALS| ... |`, `{ ... }`), and compiles moving
/// that many values to the return stack at run time; each name becomes a temporary word that
/// pushes its value from the current frame.
pub fn locals(state: &mut ForthState, closing: ClosingToken) -> (r: ForthResult)
    requires old(state).wf(),
    ensures
        locals_effect(old(state), final(state), closing, r),
{
    let c = closing_to_char(closing);
    let ghost rest0 = state.input_stream.spec_rest();
    let mut names: Vec<String> = Vec::new();
    loop
        invariant_except_break
            local_names(rest0, c) == names_after(name_texts(names@), local_names(state.input_stream.spec_rest(), c)),
        invariant
            state.wf(),
            c == closing_char(closing),
            rest0 == old(state).input_stream.spec_rest(),
            state.unchanged_except(old(state), set![Field::Input]),
        ensures
            local_names(rest0, c) == Ok::<(Seq<Seq<char>>, Seq<char>), Error>(
                (name_texts(names@), state.input_stream.spec_rest()),
            ),
        decreases state.input_stream.spec_rest().len(),
    {
        let ghost before = state.input_stream.spec_rest();
        let name = match state.input_stream.next_word() {
            Ok(w) => w,
            Err(e) => {
                return Err(e);
            },
        };
        proof {
            assert(names_after(name_texts(names@), Ok((Seq::empty(), after_token(before)))) == Ok::<
                (Seq<Seq<char>>, Seq<char>),
                Error,
            >((name_texts(names@), after_token(before)))) by {
                assert(name_texts(names@) + Seq::<Seq<char>>::empty() =~= name_texts(names@));
            }
        }
        if is_closing_word(&name, c) {
            break;
        }
        let ghost front = name_texts(names@);
        names.push(name);
        proof {
            assert(name_texts(names@) =~= front + seq![name@]);
            match local_names(state.input_stream.spec_rest(), c) {
                Ok((more, left)) => {
                    assert(front + (seq![name@] + more) =~= name_texts(names@) + more);
                },
                Err(e) => {},
            }
        }
    }
    let ghost input_after = state.input_stream;
    let ghost texts = name_texts(names@);
    match state.push_data(ExecutionToken::Number(names.len() as i64)) {
        Ok(()) => {},
        Err(e) => {
            return Err(e);
        },
    }
    match postpone_operation(state, Operation::LocalsRuntime) {
        Ok(()) => {},
        Err(e) => {
            return Err(e);
        },
    }
    let jump_address = state.here_address();
    match state.push_data_none::<ExecutionToken>() {
        Ok(()) => {},
        Err(e) => {
            return Err(e);
        },
    }
    let mut offset: usize = 0;
    while offset < names.len()
        invariant
            state.wf(),
            offset <= names@.len(),
            texts == name_texts(names@),
            state.unchanged_except(
                old(state),
                set![Field::DataSpace, Field::Definitions, Field::Compiled, Field::Input],
            ),
            state.input_stream == input_after,
            rest0 == old(state).input_stream.spec_rest(),
            local_names(rest0, closing_char(closing)) == Ok::<(Seq<Seq<char>>, Seq<char>), Error>(
                (texts, input_after.spec_rest()),
            ),
            state.definitions.spec_names() == old(state).definitions.spec_names(),
            state.definitions.spec_definitions() == old(state).definitions.spec_definitions(),
            state.definitions.spec_most_recent() == old(state).definitions.spec_most_recent(),
            state.definitions.spec_temp_names() == old(state).definitions.spec_temp_names() + texts.take(
                offset as int,
            ),
            state.definitions.spec_temp_definitions() == old(state).definitions.spec_temp_definitions()
                + Seq::new(offset as nat, |i: int| local_stub_definition(old(state), i)),
            state.data_space.spec_length() == old(state).data_space.spec_length() + 3 + 2 * offset,
            state.data_space.view() == old(state).data_space.view() + seq![
                Value::ExecutionToken(ExecutionToken::Number(texts.len() as i64)),
                op_cell(Operation::LocalsRuntime),
                Value::Number(0),
            ] + local_stub_cells(offset as nat),
            state.compiled_instructions == old(state).compiled_instructions,
            jump_address.raw() == old(state).data_space.spec_base_address().raw() + (
            old(state).data_space.spec_length() + 2) * CELL_SIZE,
        decreases names@.len() - offset,
    {
        let stub = state.here_address();
        let name = names[offset].clone();
        proof {
            assert(local_stub_definition(old(state), offset as int) == Definition {
                immediate: false,
                execution_token: ExecutionToken::Definition(stub),
            });
        }
        state.definitions.add_temp(name, Definition::new(ExecutionToken::Definition(stub), false));
        proof {
            assert(texts.take(offset as int).push(name@) =~= texts.take(offset + 1));
            assert(Seq::new(offset as nat, |i: int| local_stub_definition(old(state), i)).push(
                local_stub_definition(old(state), offset as int),
            ) =~= Seq::new((offset + 1) as nat, |i: int| local_stub_definition(old(state), i)));
        }
        match state.push_data(ExecutionToken::Number(offset as i64)) {
            Ok(()) => {},
            Err(e) => {
                return Err(e);
            },
        }
        match postpone_operation(state, Operation::LocalStubRuntime) {
            Ok(()) => {},
            Err(e) => {
                return Err(e);
            },
        }
        proof {
            let stubs = local_stub_cells(offset as nat);
            assert(stubs + seq![Value::ExecutionToken(ExecutionToken::Number(offset as i64))]
                =~= stubs.push(Value::ExecutionToken(ExecutionToken::Number(offset as i64))));
            assert(stubs.push(Value::ExecutionToken(ExecutionToken::Number(offset as i64))).push(
                op_cell(Operation::LocalStubRuntime),
            ) =~= local_stub_cells((offset + 1) as nat));
        }
        offset = offset + 1;
    }
    proof {
        assert(texts.take(texts.len() as int) =~= texts);
    }
    let destination = state.here_address();
    if jump_address.0.0 > u64::MAX - CELL_SIZE {
        return Err(Error::InvalidAddress);
    }
    let ghost before_write = state.data_space;
    let xt = state.compiled_instructions.relative_branch(jump_address, destination);
    let r = xt.write_to_memory(&mut state.data_space, jump_address);
    proof {
        let len: int = old(state).data_space.spec_length() as int;
        old(state).data_space.lemma_view_len();
        assert(before_write.spec_contains(jump_address));
        assert(before_write.spec_cell_index(jump_address) == len + 2) by {
            assert(((len + 2) * 8) / 8 == len + 2) by (nonlinear_arith);
        }
        lemma_one_cell_written(
            &before_write,
            &state.data_space,
            jump_address,
            Value::ExecutionToken(xt),
            xt.spec_write_second(),
        );
        let prologue = seq![
            Value::ExecutionToken(ExecutionToken::Number(texts.len() as i64)),
            op_cell(Operation::LocalsRuntime),
            Value::Number(0),
        ];
        assert((old(state).data_space.view() + prologue + local_stub_cells(texts.len())).update(
            len + 2,
            Value::ExecutionToken(xt),
        ) =~= old(state).data_space.view() + locals_cells(
            texts.len(),
            old(state).compiled_instructions@.len(),
        ));
    }
    r
}

/// What `locals_runtime` does to a machine, and what it answers.
pub open spec fn locals_runtime_effect(old: &ForthState, new: &ForthState, r: ForthResult) -> bool {
    &&& (new.wf())
    &&& (new.same_except_stacks(old))
    &&& (new.return_stack.spec_frame_offset() == old.return_stack.spec_frame_offset())
    &&& (old.stack@.len() == 0 ==> r == Err::<(), Error>(Error::StackUnderflow))
    &&& (old.stack@.len() > 0 ==> {
        let t = old.stack@.drop_last();
        let n = old.stack@.last().spec_to_number() as int;
        let moved = if n <= 0 {
            0
        } else if n <= t.len() {
            n
        } else {
            t.len() as int
        };
        &&& (n <= t.len() ==> r is Ok && new.stack@ == t.take(t.len() - moved))
        &&& (n > t.len() ==> r == Err::<(), Error>(Error::StackUnderflow) && new.stack@ == Seq::<Value>::empty())
        &&& new.return_stack@ == old.return_stack@ + reversed(t.skip(t.len() - moved))
    })
}

/// `s` from its last element to its first.
pub open spec fn reversed(s: Seq<Value>) -> Seq<Value> {
    Seq::new(s.len(), |i: int| s[s.len() - 1 - i])
}

/// The run-time entry of a word with locals: pops their number and moves that many values
/// from the data stack to the return stack.
pub fn locals_runtime(state: &mut ForthState) -> (r: ForthResult)
    requires old(state).wf(),
    ensures
        locals_runtime_effect(old(state), final(state), r),
{
    let ghost s = state.stack@;
    let count = match state.stack.pop::<i64>() {
        Ok(n) => n,
        Err(e) => {
            return Err(e);
        },
    };
    let ghost t = s.drop_last();
    let ghost rs = state.return_stack@;
    proof {
        assert(s.skip(s.len() - 1)[0] == s.last());
        assert(state.stack@ =~= t);
        assert(t.skip(t.len() as int) =~= Seq::<Value>::empty());
        assert(reversed(Seq::<Value>::empty()) =~= Seq::<Value>::empty());
        assert(rs + Seq::<Value>::empty() =~= rs);
        assert(t.take(t.len() as int) =~= t);
    }
    let mut i: i64 = 0;
    while i < count
        invariant
            state.wf(),
            state.same_except_stacks(old(state)),
            state.return_stack.spec_frame_offset() == old(state).return_stack.spec_frame_offset(),
            0 <= i <= count || count < 0,
            old(state).stack@.len() > 0,
            s == old(state).stack@,
            t == s.drop_last(),
            rs == old(state).return_stack@,
            count == s.last().spec_to_number(),
            0 <= i <= t.len(),
            count <= 0 ==> i == 0,
            state.stack@ == t.take(t.len() - i),
            state.return_stack@ == rs + reversed(t.skip(t.len() - i)),
        decreases count - i,
    {
        let ghost before = state.stack@;
        let ghost rs_before = state.return_stack@;
        match stack_to_return_stack::<Value>(state) {
            Ok(()) => {},
            Err(e) => {
                proof {
                    assert(i == t.len());
                    assert(t.skip(0) =~= t);
                }
                return Err(e);
            },
        }
        proof {
            assert(i < t.len());
            assert(state.stack@ =~= t.take(t.len() - (i + 1)));
            assert(group(before, 1, 0) =~= seq![t[t.len() - 1 - i]]);
            assert(reversed(t.skip(t.len() - (i + 1))) =~= reversed(t.skip(t.len() - i)) + seq![t[t.len() - 1 - i]]);
        }
        i = i + 1;
    }
    Ok(())
}

/// The cell `offset` cells into the current frame of `stack`, or why it cannot be read.
pub open spec fn frame_value(stack: &Stack, offset: u64) -> Result<Value, Error> {
    if (stack.spec_frame_offset() + offset) * CELL_SIZE + stack.spec_stack_base().raw() > u64::MAX {
        Err(Error::InvalidAddress)
    } else {
        read_result(stack, frame_address(stack, offset))
    }
}

/// `new` is `mid` after popping a frame offset off the data stack and pushing the local
/// stored at that offset of the return stack's frame.
pub open spec fn local_pushed(mid: &ForthState, new: &ForthState, r: ForthResult) -> bool {
    let s = mid.stack@;
    &&& new.return_stack == mid.return_stack
    &&& new.instruction_pointer == mid.instruction_pointer
    &&& if s.len() == 0 {
        r == Err::<(), Error>(Error::StackUnderflow)
    } else {
        match frame_value(&mid.return_stack, s.last().spec_to_number() as u64) {
            Err(e) => r == Err::<(), Error>(e) && new.stack@ == s.drop_last(),
            Ok(v) => r is Ok && new.stack@ == s.drop_last().push(v),
        }
    }
}

/// What `local_stub_runtime` does to a machine, and what it answers.
pub open spec fn local_stub_runtime_effect(old: &ForthState, new: &ForthState, r: ForthResult) -> bool {
    &&& (new.wf())
    &&& (new.unchanged_except(old, set![Field::Stack, Field::ReturnStack, Field::Pointer]))
    &&& (exists|mid: ForthState, w: ForthResult|
                {
                    &&& #[trigger] ForthState::returned(old, &mid, w)
                    &&& mid.stack == old.stack
                    &&& w is Err ==> r == w && new.stack == old.stack
                    &&& w is Ok ==> local_pushed(&mid, new, r)
                })
}

/// The run-time body of a local's word: returns to the word that uses the local, pops the
/// local's slot, and pushes the value in that slot of the current frame.
pub fn local_stub_runtime(state: &mut ForthState) -> (r: ForthResult)
    requires old(state).wf(),
    ensures
        local_stub_runtime_effect(old(state), final(state), r),
{
    let w = state.return_from();
    let ghost mid = *state;
    assert(ForthState::returned(old(state), &mid, w));
    match w {
        Ok(()) => {},
        Err(e) => {
            return Err(e);
        },
    }
    let ghost s = state.stack@;
    let offset = match state.stack.pop::<u64>() {
        Ok(o) => o,
        Err(e) => {
            return Err(e);
        },
    };
    proof {
        assert(s.skip(s.len() - 1)[0] == s.last());
        assert(state.stack@ =~= s.drop_last());
    }
    let value = match state.return_stack.read_from_frame::<Value>(offset) {
        Ok(v) => v,
        Err(e) => {
            return Err(e);
        },
    };
    state.stack.push(value);
    assert(state.stack@ =~= s.drop_last().push(value));
    Ok(())
}

/// The words of this module: each name, whether it is immediate, and its operation.
pub open spec fn operation_table() -> Seq<(&'static str, bool, Operation)> {
    seq![
        ("IMMEDIATE", false, Operation::Immediate),
        ("[", true, Operation::SetInterpret),
        ("]", true, Operation::SetCompile),
        (":", false, Operation::StartWordCompilation),
        (";", true, Operation::EndWordCompilation),
        ("POSTPONE", true, Operation::Postpone),
        ("LITERAL", true, Operation::Literal),
        ("EXECUTE", false, Operation::Execute),
        ("'", false, Operation::ReadExecutionToken),
        (">BODY", false, Operation::Body),
        ("[']", true, Operation::GetExecutionToken),
        ("(", true, Operation::AbsorbComment(ClosingToken::Parenthesis)),
        ("\\", true, Operation::AbsorbComment(ClosingToken::NewLine)),
        ("STATE", false, Operation::ExecutionModeAddress),
        ("_BNE", false, Operation::WriteBranchFalse),
        ("_B", false, Operation::WriteBranch),
        ("LOCALS|", true, Operation::Locals(ClosingToken::Pipe)),
        ("{", true, Operation::Locals(ClosingToken::CurlyBracket)),
    ]
}

/// The compiler words with their names.
pub fn get_operations() -> (r: Vec<(&'static str, bool, Operation)>)
    ensures r@ == operation_table(),
{
    let mut v: Vec<(&'static str, bool, Operation)> = Vec::new();
    v.push(("IMMEDIATE", false, Operation::Immediate));
    v.push(("[", true, Operation::SetInterpret));
    v.push(("]", true, Operation::SetCompile));
    v.push((":", false, Operation::StartWordCompilation));
    v.push((";", true, Operation::EndWordCompilation));
    v.push(("POSTPONE", true, Operation::Postpone));
    v.push(("LITERAL", true, Operation::Literal));
    v.push(("EXECUTE", false, Operation::Execute));
    v.push(("'", false, Operation::ReadExecutionToken));
    v.push((">BODY", false, Operation::Body));
    v.push(("[']", true, Operation::GetExecutionToken));
    v.push(("(", true, Operation::AbsorbComment(ClosingToken::Parenthesis)));
    v.push(("\\", true, Operation::AbsorbComment(ClosingToken::NewLine)));
    v.push(("STATE", false, Operation::ExecutionModeAddress));
    v.push(("_BNE", false, Operation::WriteBranchFalse));
    v.push(("_B", false, Operation::WriteBranch));
    v.push(("LOCALS|", true, Operation::Locals(ClosingToken::Pipe)));
    v.push(("{", true, Operation::Locals(ClosingToken::CurlyBracket)));
    assert(v@ =~= operation_table());
    v
}

} // verus!
