use vstd::prelude::*;
use vstd::string::*;
use crate::environment::memory::Address;
use crate::evaluate::definition::{Definition, ExecutionToken};
use crate::evaluate::execution::Field;
use crate::evaluate::forth::{IntoOutputSink, ends_evaluation, evaluated_in};
use crate::evaluate::kernels::{DefaultKernel, Kernel};
use crate::io::format::{hex, hex_string};
use crate::io::output_stream::{OutputStream, kept_output, lemma_wrote_first_kept, wrote, wrote_first};
use crate::operations::Operation;
use crate::evaluate::{Error, Forth, ForthResult, ForthState};
use super::debug_operations::{
    DebugOperation, DEBUG_OPERATIONS, add_break, add_break_effect, all_commands, all_commands_effect, do_continue,
    do_continue_effect, do_exit, do_exit_effect, examine_memory, examine_memory_effect, see, see_effect, step,
    step_effect, view_memory_map, view_memory_map_effect, view_memory_region, view_memory_region_effect, view_state,
    view_state_effect, state_view_text,
};

verus! {

/// The debugger: its own Forth machine that reads debug commands, the breakpoints, and the
/// error being debugged.
pub struct DebugState {
    pub debugging: bool,
    pub stepping: bool,
    pub breakpoints: Vec<Address>,
    pub current_error: Option<Error>,
    pub forth: Forth<DefaultKernel>,
    pub debug_operations: Vec<(String, DebugOperation)>,
}

impl DebugState {
    /// The debugger's machine is consistent.
    pub open spec fn wf(&self) -> bool {
        self.forth.wf()
    }

    /// A debugger that is not debugging, with no breakpoints and no error, that knows the
    /// debug commands.
    pub fn new() -> (r: Self)
        ensures
            r.wf(),
            !r.debugging,
            !r.stepping,
            r.breakpoints@ == Seq::<Address>::empty(),
            r.current_error is None,
            r.debug_operations@.len() == 10,
            forall|i: int| 0 <= i < 10 ==> #[trigger] r.debug_operations@[i].0@ == DEBUG_OPERATIONS[i].0@
                && r.debug_operations@[i].1 == DEBUG_OPERATIONS[i].1,
    {
        let mut debug_operations: Vec<(String, DebugOperation)> = Vec::new();
        let mut i: usize = 0;
        while i < 10
            invariant
                i <= 10,
                debug_operations@.len() == i,
                forall|k: int| 0 <= k < i ==> #[trigger] debug_operations@[k].0@ == DEBUG_OPERATIONS[k].0@
                    && debug_operations@[k].1 == DEBUG_OPERATIONS[k].1,
            decreases 10 - i,
        {
            let (name, op) = DEBUG_OPERATIONS[i];
            debug_operations.push((String::from_str(name), op));
            i = i + 1;
        }
        DebugState {
            debugging: false,
            stepping: false,
            breakpoints: Vec::new(),
            current_error: None,
            forth: Forth::<DefaultKernel>::new(),
            debug_operations,
        }
    }
}

/// What running debug commands can do to the debugger's settings: the commands stay, new
/// breakpoints are only added after the old ones, and the error being debugged stays, is
/// cleared, or becomes a halt.
pub open spec fn settings_after_commands(old: &DebugState, new: &DebugState) -> bool {
    &&& new.debug_operations@ == old.debug_operations@
    &&& old.breakpoints@.len() <= new.breakpoints@.len()
    &&& forall|i: int| 0 <= i < old.breakpoints@.len() ==> #[trigger] new.breakpoints@[i] == old.breakpoints@[i]
    &&& (new.current_error == old.current_error || new.current_error is None || new.current_error == Some(Error::Halt))
}

/// Whether `op` is the first debug command in `commands` named `word`.
pub open spec fn first_command(commands: Seq<(String, DebugOperation)>, word: Seq<char>, op: DebugOperation) -> bool {
    exists|i: int|
        0 <= i < commands.len() && #[trigger] commands[i].0@ == word && commands[i].1 == op && forall|k: int|
            0 <= k < i ==> commands[k].0@ != word
}

/// Whether no debug command in `commands` is named `word`.
pub open spec fn no_command(commands: Seq<(String, DebugOperation)>, word: Seq<char>) -> bool {
    forall|i: int| 0 <= i < commands.len() ==> #[trigger] commands[i].0@ != word
}

/// What the debug command `op` does to the debugger, with `state` the debugged machine.
pub open spec fn command_effect(op: DebugOperation, old: &DebugState, new: &DebugState, state: &ForthState, r: ForthResult) -> bool {
    &&& new.wf()
    &&& new.forth.state.config == old.forth.state.config
    &&& match op {
        DebugOperation::ViewMemoryRegion => view_memory_region_effect(old, new, state, r),
        DebugOperation::ViewMemoryMap => r is Ok && view_memory_map_effect(old, new, state),
        DebugOperation::ExamineMemory => examine_memory_effect(old, new, state, r),
        DebugOperation::ViewState => r is Ok && view_state_effect(old, new, state),
        DebugOperation::AllCommands => r is Ok && all_commands_effect(old, new, state),
        DebugOperation::AddBreak => add_break_effect(old, new, r),
        DebugOperation::Step => r is Ok && step_effect(old, new),
        DebugOperation::Continue => r is Ok && do_continue_effect(old, new),
        DebugOperation::Exit => r is Ok && do_exit_effect(old, new),
        DebugOperation::See => see_effect(old, new, state, r),
    }
    &&& kept_output(&old.forth.state.output_stream, &new.forth.state.output_stream)
}

/// `debugger` with its machine replaced by `forth`.
pub open spec fn with_forth(debugger: DebugState, forth: Forth<DefaultKernel>) -> DebugState {
    DebugState {
        debugging: debugger.debugging,
        stepping: debugger.stepping,
        breakpoints: debugger.breakpoints,
        current_error: debugger.current_error,
        forth,
        debug_operations: debugger.debug_operations,
    }
}

/// `debugger` with debugging on.
pub open spec fn debugging_on(debugger: DebugState) -> DebugState {
    DebugState {
        debugging: true,
        stepping: debugger.stepping,
        breakpoints: debugger.breakpoints,
        current_error: debugger.current_error,
        forth: debugger.forth,
        debug_operations: debugger.debug_operations,
    }
}

/// What at most `fuel` rounds of debug commands do, from the debugger `old` to `new`, with
/// `state` the debugged machine. While debugging, each round the debugger's machine
/// evaluates its input; where that stops at an unknown word that names a debug command, the
/// command runs, and the rounds go on where it answers `Ok`. Any other end of the
/// evaluation, or an error of the command, ends them.
pub open spec fn debug_rounds(old: DebugState, new: DebugState, state: &ForthState, fuel: nat) -> bool
    decreases fuel,
{
    if fuel == 0 || !old.debugging {
        new == old
    } else {
        exists|evaluated: Forth<DefaultKernel>, answer: ForthResult|
            #[trigger] evaluated_in(old.forth, evaluated, answer, u64::MAX as nat) && match answer {
                Err(Error::UnknownWord(w)) => {
                    ||| no_command(old.debug_operations@, w@) && new == with_forth(old, evaluated)
                    ||| exists|op: DebugOperation, after: DebugState, result: ForthResult|
                        #[trigger] command_effect(op, &with_forth(old, evaluated), &after, state, result)
                            && first_command(old.debug_operations@, w@, op) && if result is Ok {
                            debug_rounds(after, new, state, (fuel - 1) as nat)
                        } else {
                            new == after
                        }
                },
                _ => new == with_forth(old, evaluated),
            }
    }
}

impl DebugState {
    /// The debug command named `word`, if any.
    fn lookup(&self, word: &String) -> (r: Option<DebugOperation>)
        ensures
            r matches Some(op) ==> first_command(self.debug_operations@, word@, op),
            r is None ==> no_command(self.debug_operations@, word@),
    {
        let mut i: usize = 0;
        while i < self.debug_operations.len()
            invariant
                i <= self.debug_operations@.len(),
                forall|k: int| 0 <= k < i ==> #[trigger] self.debug_operations@[k].0@ != word@,
            decreases self.debug_operations@.len() - i,
        {
            if self.debug_operations[i].0 == *word {
                assert(self.debug_operations@[i as int].0@ == word@);
                return Some(self.debug_operations[i].1);
            }
            i = i + 1;
        }
        None
    }

    /// Runs one debug command on the debugged machine.
    #[verifier::spinoff_prover]
    #[verifier::rlimit(50)]
    fn run(&mut self, op: DebugOperation, state: &ForthState) -> (r: ForthResult)
        requires
            old(self).wf(),
            state.wf(),
        ensures
            command_effect(op, old(self), final(self), state, r),
    {
        match op {
            DebugOperation::ViewMemoryRegion => view_memory_region(self, state),
            DebugOperation::ViewMemoryMap => {
                view_memory_map(self, state);
                Ok(())
            },
            DebugOperation::ExamineMemory => examine_memory(self, state),
            DebugOperation::ViewState => {
                view_state(self, state);
                Ok(())
            },
            DebugOperation::AllCommands => {
                all_commands(self, state);
                Ok(())
            },
            DebugOperation::AddBreak => add_break(self),
            DebugOperation::Step => {
                step(self);
                Ok(())
            },
            DebugOperation::Continue => {
                do_continue(self);
                Ok(())
            },
            DebugOperation::Exit => {
                do_exit(self);
                Ok(())
            },
            DebugOperation::See => see(self, state),
        }
    }

    /// Shows the debugged machine's state, then runs the debug commands read by the
    /// debugger's machine, until a command ends debugging, the debugger's input is used up,
    /// or a word fails that is not a debug command.
    pub fn debug(&mut self, state: &ForthState)
        requires
            old(self).wf(),
            state.wf(),
        ensures
            final(self).wf(),
            final(self).forth.state.config == old(self).forth.state.config,
            wrote_first(
                &old(self).forth.state.output_stream,
                &final(self).forth.state.output_stream,
                state_view_text(old(self).current_error, old(self).breakpoints@, state),
            ),
            settings_after_commands(old(self), final(self)),
            debugged(old(self), final(self), state),
    {
        let ghost text = state_view_text(self.current_error, self.breakpoints@, state);
        let ghost start = *self;
        view_state(self, state);
        let ghost viewed = *self;
        self.debugging = true;
        let ghost started = *self;
        proof {
            assert(started == debugging_on(viewed));
        }
        let mut fuel: u64 = u64::MAX;
        while self.debugging && fuel > 0
            invariant_except_break
                forall|end: DebugState|
                    #[trigger] debug_rounds(*self, end, state, fuel as nat) ==> debug_rounds(
                        started,
                        end,
                        state,
                        u64::MAX as nat,
                    ),
                !self.debugging || fuel == 0 ==> debug_rounds(started, *self, state, u64::MAX as nat),
            invariant
                self.wf(),
                state.wf(),
                self.forth.state.config == old(self).forth.state.config,
                wrote_first(&old(self).forth.state.output_stream, &self.forth.state.output_stream, text),
                settings_after_commands(old(self), self),
            ensures
                debug_rounds(started, *self, state, u64::MAX as nat),
            decreases fuel,
        {
            let ghost before = *self;
            let ghost used = fuel;
            let evaluated = self.forth.evaluate();
            let ghost answer = evaluated;
            proof {
                lemma_wrote_first_kept(
                    &old(self).forth.state.output_stream,
                    &before.forth.state.output_stream,
                    &self.forth.state.output_stream,
                    text,
                );
            }
            let ghost evaluated_state = *self;
            proof {
                assert(evaluated_state == with_forth(before, evaluated_state.forth));
                assert(evaluated_in(before.forth, evaluated_state.forth, answer, u64::MAX as nat));
            }
            let result = match evaluated {
                Err(Error::UnknownWord(word)) => match self.lookup(&word) {
                    Some(op) => {
                        let r = self.run(op, state);
                        proof {
                            lemma_wrote_first_kept(
                                &old(self).forth.state.output_stream,
                                &evaluated_state.forth.state.output_stream,
                                &self.forth.state.output_stream,
                                text,
                            );
                            assert(command_effect(op, &with_forth(before, evaluated_state.forth), &*self, state, r));
                        }
                        r
                    },
                    None => Err(Error::UnknownWord(word)),
                },
                Ok(()) => Err(Error::TokenStreamEmpty),
                Err(e) => Err(e),
            };
            if result.is_err() {
                proof {
                    assert(debug_rounds(before, *self, state, used as nat));
                }
                break;
            }
            fuel = fuel - 1;
            proof {
                assert forall|end: DebugState|
                    #[trigger] debug_rounds(*self, end, state, fuel as nat) implies debug_rounds(
                    started,
                    end,
                    state,
                    u64::MAX as nat,
                ) by {
                    assert(debug_rounds(before, end, state, used as nat));
                }
                if !self.debugging || fuel == 0 {
                    assert(debug_rounds(*self, *self, state, fuel as nat));
                }
            }
        }
        proof {
            assert(view_state_effect(old(self), &viewed, state));
        }
    }
}

/// What `DebugState::debug` does, from the debugger `old` to `new`, with `state` the
/// debugged machine: it shows the machine's state, then runs rounds of debug commands as
/// `debug_rounds` says.
pub open spec fn debugged(old: &DebugState, new: &DebugState, state: &ForthState) -> bool {
    exists|viewed: DebugState|
        #[trigger] view_state_effect(old, &viewed, state) && debug_rounds(debugging_on(viewed), *new, state, u64::MAX as nat)
}

/// `new` is `ran` with its error cleared, and `answer` gives back the error `ran` held.
pub open spec fn error_taken(ran: &DebugState, new: &DebugState, answer: ForthResult) -> bool {
    &&& new.current_error is None
    &&& new.debugging == ran.debugging
    &&& new.stepping == ran.stepping
    &&& new.breakpoints == ran.breakpoints
    &&& new.forth == ran.forth
    &&& new.debug_operations == ran.debug_operations
    &&& answer == match ran.current_error {
        Some(e) => Err::<(), Error>(e),
        None => Ok(()),
    }
}

/// A debugging session from `start`: the debugger debugs (`debugged`), then the error the
/// commands left is taken out and given back as `answer`.
pub open spec fn debug_session(start: &DebugState, new: &DebugState, state: &ForthState, answer: ForthResult) -> bool {
    exists|ran: DebugState| #[trigger] debugged(start, &ran, state) && error_taken(&ran, new, answer)
}

/// `announced` is `old` after writing the lines that announce `reason`, and nothing else.
pub open spec fn announced(old: &DebugState, announced: &DebugState, reason: Seq<char>) -> bool {
    &&& announced.forth.state.unchanged_except(&old.forth.state, set![Field::Output])
    &&& announced.forth.kernel == old.forth.kernel
    &&& wrote(&old.forth.state.output_stream, &announced.forth.state.output_stream, break_banner(reason))
    &&& announced.debugging == old.debugging
    &&& announced.stepping == old.stepping
    &&& announced.breakpoints == old.breakpoints
    &&& announced.current_error == old.current_error
    &&& announced.debug_operations == old.debug_operations
}

/// A stop of the machine for `reason`: the lines that announce it are written, then a
/// debugging session runs (`debug_session`) and gives back `answer`.
pub open spec fn debug_break(old: &DebugState, new: &DebugState, state: &ForthState, reason: Seq<char>, answer: ForthResult) -> bool {
    exists|start: DebugState| #[trigger] debug_session(&start, new, state, answer) && announced(old, &start, reason)
}

/// `new` is `old` after writing the lines that announce `reason` and debugging.
pub open spec fn announced_and_debugged(old: &DebugState, new: &DebugState, state: &ForthState, reason: Seq<char>) -> bool {
    exists|start: DebugState| #[trigger] debugged(&start, new, state) && announced(old, &start, reason)
}

/// Taking out the error left after announcing and debugging makes a stop of the machine.
proof fn lemma_break_answer(
    old: &DebugState,
    ran: &DebugState,
    new: &DebugState,
    state: &ForthState,
    reason: Seq<char>,
    answer: ForthResult,
)
    requires
        announced_and_debugged(old, ran, state, reason),
        error_taken(ran, new, answer),
    ensures
        debug_break(old, new, state, reason, answer),
{
    let start = choose|start: DebugState| #[trigger] debugged(&start, ran, state) && announced(old, &start, reason);
    assert(debug_session(&start, new, state, answer));
}

/// `debugger` debugging `error`.
pub open spec fn with_error(debugger: DebugState, error: Error) -> DebugState {
    DebugState {
        debugging: debugger.debugging,
        stepping: debugger.stepping,
        breakpoints: debugger.breakpoints,
        current_error: Some(error),
        forth: debugger.forth,
        debug_operations: debugger.debug_operations,
    }
}

/// The lines that announce why debugging starts.
pub open spec fn break_banner(reason: Seq<char>) -> Seq<char> {
    seq!['\n'] + "------------------------------------------------------"@ + seq!['\n'] + reason + seq!['\n']
}

/// Whether the instruction pointer is at one of the breakpoints.
pub open spec fn at_breakpoint(breakpoints: Seq<Address>, instruction_pointer: Option<Address>) -> bool {
    instruction_pointer matches Some(a) && breakpoints.contains(a)
}

/// Whether the machine is about to run the `DEBUG` word.
pub open spec fn at_debug_word(state: &ForthState) -> bool {
    state.current_instruction == Some(ExecutionToken::LeafOperation(Operation::Debug))
}

/// Why the debug kernel stops the machine before a step, if it does: the instruction
/// pointer is at a breakpoint, the debugger is stepping, or the `DEBUG` word is about to run.
pub open spec fn break_reason(debug_state: &DebugState, state: &ForthState) -> Option<Seq<char>> {
    if at_breakpoint(debug_state.breakpoints@, state.instruction_pointer) {
        Some("Hit breakpoint at "@ + hex_string(state.instruction_pointer->Some_0.raw() as nat))
    } else if debug_state.stepping {
        Some("Stepped"@)
    } else if at_debug_word(state) {
        Some("Now debugging Forth process"@)
    } else {
        None
    }
}

/// What the debug kernel does to the debugger before a step: where it stops the machine it
/// announces why and shows the machine's state before running debug commands; otherwise the
/// debugger stays as it was. Either way the error a command left is cleared.
pub open spec fn debugged_before_step(old: &DebugState, new: &DebugState, state: &ForthState) -> bool {
    &&& new.current_error is None
    &&& match break_reason(old, state) {
        Some(reason) => {
            &&& wrote_first(
                &old.forth.state.output_stream,
                &new.forth.state.output_stream,
                break_banner(reason) + state_view_text(old.current_error, old.breakpoints@, state),
            )
            &&& settings_after_commands(old, new)
            &&& exists|answer: ForthResult| #[trigger] debug_break(old, new, state, reason, answer)
        },
        None => {
            &&& new.forth == old.forth
            &&& new.breakpoints == old.breakpoints
            &&& new.stepping == old.stepping
            &&& new.debug_operations == old.debug_operations
        },
    }
}

/// What the debug kernel does to the debugger on an error: it shows the machine's state with
/// the error and runs debug commands, then clears the error a command left.
pub open spec fn debugged_error(old: &DebugState, new: &DebugState, state: &ForthState, error: Error) -> bool {
    &&& new.current_error is None
    &&& exists|answer: ForthResult| #[trigger] debug_session(&with_error(*old, error), new, state, answer)
    &&& wrote_first(
        &old.forth.state.output_stream,
        &new.forth.state.output_stream,
        state_view_text(Some(error), old.breakpoints@, state),
    )
    &&& settings_after_commands(old, new)
}

/// A kernel that stops the machine for debugging at a breakpoint, after each step while
/// stepping, where the `DEBUG` word runs, and at an error; then chains to `NK`.
pub struct DebugKernel<NK: Kernel> {
    pub debug_state: DebugState,
    pub next_kernel: NK,
}

impl<NK: Kernel> DebugKernel<NK> {
    /// Sets where the debugger reads its commands from and writes to.
    pub fn init_io<O: IntoOutputSink>(&mut self, input: Vec<char>, output: O)
        requires old(self).inv(),
        ensures
            final(self).inv(),
            final(self).debug_state.forth.state.input_stream.spec_rest() == input@,
            final(self).next_kernel == old(self).next_kernel,
            final(self).debug_state.breakpoints@ == old(self).debug_state.breakpoints@,
    {
        self.debug_state.forth.set_output_stream(output);
        self.debug_state.forth.set_input_stream(input);
    }

    /// The breakpoint the instruction pointer is at, if any.
    fn hit_breakpoint(&self, state: &ForthState) -> (r: Option<Address>)
        ensures
            r matches Some(a) ==> state.instruction_pointer == Some(a) && self.debug_state.breakpoints@.contains(a),
            r is None ==> !at_breakpoint(self.debug_state.breakpoints@, state.instruction_pointer),
    {
        match state.instruction_pointer {
            Some(ip) => {
                let mut i: usize = 0;
                while i < self.debug_state.breakpoints.len()
                    invariant
                        i <= self.debug_state.breakpoints@.len(),
                        state.instruction_pointer == Some(ip),
                        forall|k: int| 0 <= k < i ==> #[trigger] self.debug_state.breakpoints@[k] != ip,
                    decreases self.debug_state.breakpoints@.len() - i,
                {
                    if self.debug_state.breakpoints[i].equals(ip) {
                        assert(self.debug_state.breakpoints@[i as int] == ip);
                        return Some(ip);
                    }
                    i = i + 1;
                }
                None
            },
            None => None,
        }
    }

    /// Writes the lines that announce why debugging starts, then debugs.
    #[verifier::spinoff_prover]
    #[verifier::rlimit(40)]
    fn break_into(&mut self, state: &ForthState, reason: &str)
        requires
            old(self).inv(),
            state.wf(),
        ensures
            final(self).inv(),
            final(self).next_kernel == old(self).next_kernel,
            wrote_first(
                &old(self).debug_state.forth.state.output_stream,
                &final(self).debug_state.forth.state.output_stream,
                break_banner(reason@) + state_view_text(
                    old(self).debug_state.current_error,
                    old(self).debug_state.breakpoints@,
                    state,
                ),
            ),
            settings_after_commands(&old(self).debug_state, &final(self).debug_state),
            announced_and_debugged(&old(self).debug_state, &final(self).debug_state, state, reason@),
    {
        let ghost start = self.debug_state.forth.state.output_stream;
        let out = &mut self.debug_state.forth.state.output_stream;
        out.writeln("");
        out.writeln("------------------------------------------------------");
        out.writeln(reason);
        let ghost mid = self.debug_state.forth.state.output_stream;
        proof {
            reveal_strlit("");
            if start.spec_keeps() {
                assert(mid.spec_pending() =~= start.spec_pending() + break_banner(reason@));
            }
        }
        let ghost announcing = self.debug_state;
        proof {
            assert(announced(&old(self).debug_state, &announcing, reason@));
        }
        self.debug_state.debug(state);
        proof {
            assert(debugged(&announcing, &self.debug_state, state));
            let text = state_view_text(old(self).debug_state.current_error, old(self).debug_state.breakpoints@, state);
            if start.spec_keeps() {
                assert(start.spec_pending() + (break_banner(reason@) + text) =~= mid.spec_pending() + text);
            }
        }
    }
}

impl<NK: Kernel> Kernel for DebugKernel<NK> {
    open spec fn inv(&self) -> bool {
        self.debug_state.wf() && self.next_kernel.inv()
    }

    /// The word `DEBUG` is defined, then the next kernel is made; the debugger starts not
    /// debugging, not stepping, with no breakpoints and no error, knowing its commands.
    open spec fn initialized(&self, old_state: &ForthState, new_state: &ForthState) -> bool {
        &&& !self.debug_state.debugging
        &&& !self.debug_state.stepping
        &&& self.debug_state.breakpoints@.len() == 0
        &&& self.debug_state.current_error is None
        &&& self.debug_state.debug_operations@.len() == 10
        &&& forall|i: int| 0 <= i < 10 ==> #[trigger] self.debug_state.debug_operations@[i].0@ == DEBUG_OPERATIONS[i].0@
            && self.debug_state.debug_operations@[i].1 == DEBUG_OPERATIONS[i].1
        &&& exists|mid: ForthState|
            {
                &&& #[trigger] self.next_kernel.initialized(&mid, new_state)
                &&& mid.unchanged_except(old_state, set![Field::Definitions])
                &&& mid.definitions.spec_names() == old_state.definitions.spec_names().push("DEBUG"@)
                &&& mid.definitions.spec_definitions() == old_state.definitions.spec_definitions().push(
                    Definition { execution_token: ExecutionToken::LeafOperation(Operation::Debug), immediate: false },
                )
                &&& mid.definitions.spec_temp_names() == old_state.definitions.spec_temp_names()
                &&& mid.definitions.spec_temp_definitions() == old_state.definitions.spec_temp_definitions()
            }
    }

    /// The debugger debugs as `debugged_before_step` says; then either it gives back an
    /// error and the machine stays as it was, or the next kernel's chain runs. Where it
    /// does not stop the machine, a pending error is given back, else the next kernel runs.
    open spec fn evaluates_chain(&self, new: &Self, old_state: &ForthState, new_state: &ForthState, r: ForthResult) -> bool {
        &&& debugged_before_step(&self.debug_state, &new.debug_state, old_state)
        &&& {
            ||| r is Err && *new_state == *old_state && new.next_kernel == self.next_kernel
            ||| self.next_kernel.evaluates_chain(&new.next_kernel, old_state, new_state, r)
        }
        &&& break_reason(&self.debug_state, old_state) is None ==> match self.debug_state.current_error {
            Some(e) => r == Err::<(), Error>(e) && *new_state == *old_state && new.next_kernel == self.next_kernel,
            None => self.next_kernel.evaluates_chain(&new.next_kernel, old_state, new_state, r),
        }
    }

    /// The machine stays as it was; an error that ends the evaluation is given back and the
    /// debugger stays as it was; any other is debugged as `debugged_error` says.
    open spec fn handles(&self, new: &Self, old_state: &ForthState, new_state: &ForthState, error: Error, r: ForthResult) -> bool {
        &&& *new_state == *old_state
        &&& new.next_kernel == self.next_kernel
        &&& ends_evaluation(error) ==> r == Err::<(), Error>(error) && *new == *self
        &&& !ends_evaluation(error) ==> debugged_error(&self.debug_state, &new.debug_state, old_state, error)
    }

    /// An error that ends the evaluation goes to the next kernel's `handle_error` as it is;
    /// any other is debugged, and then either the debugger answers `Ok` with the machine as
    /// it was, or the error the debug commands left goes to the next kernel.
    open spec fn handles_chain(
        &self,
        new: &Self,
        old_state: &ForthState,
        new_state: &ForthState,
        error: Error,
        r: ForthResult,
    ) -> bool {
        if ends_evaluation(error) {
            &&& new.debug_state == self.debug_state
            &&& self.next_kernel.handles(&new.next_kernel, old_state, new_state, error, r)
        } else {
            &&& debugged_error(&self.debug_state, &new.debug_state, old_state, error)
            &&& {
                ||| r is Ok && *new_state == *old_state && new.next_kernel == self.next_kernel
                ||| exists|e: Error| #[trigger] self.next_kernel.handles(&new.next_kernel, old_state, new_state, e, r)
            }
        }
    }

    fn new(state: &mut ForthState) -> (r: Self) {
        let mut operations: Vec<(&'static str, bool, Operation)> = Vec::new();
        operations.push(("DEBUG", false, Operation::Debug));
        let ghost ops = operations@;
        state.add_operations(operations);
        let ghost mid = *state;
        proof {
            assert(ops.map_values(|t: (&'static str, bool, Operation)| t.0@) =~= seq!["DEBUG"@]);
            assert(ops.map_values(
                |t: (&'static str, bool, Operation)|
                    Definition { execution_token: ExecutionToken::LeafOperation(t.2), immediate: t.1 },
            ) =~= seq![Definition { execution_token: ExecutionToken::LeafOperation(Operation::Debug), immediate: false }]);
        }
        let debug_state = DebugState::new();
        let next_kernel = NK::new(state);
        proof {
            assert(next_kernel.initialized(&mid, state));
            assert(mid.definitions.spec_names() =~= old(state).definitions.spec_names().push("DEBUG"@));
            assert(mid.definitions.spec_definitions() =~= old(state).definitions.spec_definitions().push(
                Definition { execution_token: ExecutionToken::LeafOperation(Operation::Debug), immediate: false },
            ));
        }
        let r = DebugKernel { debug_state, next_kernel };
        proof {
            assert(!r.debug_state.debugging);
            assert(r.debug_state.breakpoints@.len() == 0);
            assert(r.debug_state.debug_operations@.len() == 10);
            assert(mid.unchanged_except(old(state), set![Field::Definitions]));
            assert(r.next_kernel.initialized(&mid, state));
            assert(r.initialized(old(state), state));
        }
        r
    }

    /// Debugs where the machine is at a breakpoint, stepping, or at the `DEBUG` word; then
    /// gives back the error a debug command left, which it clears.
    fn evaluate(&mut self, state: &mut ForthState) -> (r: ForthResult)
        ensures
            *final(state) == *old(state),
            debugged_before_step(&old(self).debug_state, &final(self).debug_state, old(state)),
            final(self).next_kernel == old(self).next_kernel,
            !at_breakpoint(old(self).debug_state.breakpoints@, old(state).instruction_pointer)
                && !old(self).debug_state.stepping && !at_debug_word(old(state)) ==> {
                &&& r == match old(self).debug_state.current_error {
                    Some(e) => Err::<(), Error>(e),
                    None => Ok(()),
                }
                &&& final(self).debug_state.forth == old(self).debug_state.forth
                &&& final(self).debug_state.breakpoints == old(self).debug_state.breakpoints
                &&& final(self).debug_state.stepping == old(self).debug_state.stepping
            },
    {
        let hit = self.hit_breakpoint(state);
        match hit {
            Some(breakpoint) => {
                let mut s = String::from_str("Hit breakpoint at ");
                let h = hex(breakpoint.as_raw());
                s.append(h.as_str());
                self.break_into(state, s.as_str());
            },
            None => if self.debug_state.stepping {
                self.break_into(state, "Stepped");
            } else if state.current_instruction == Some(ExecutionToken::LeafOperation(Operation::Debug)) {
                self.break_into(state, "Now debugging Forth process");
            },
        }
        let ghost ran = self.debug_state;
        let r = match self.debug_state.current_error.take() {
            Some(e) => Err(e),
            None => Ok(()),
        };
        proof {
            assert(error_taken(&ran, &self.debug_state, r));
            if let Some(reason) = break_reason(&old(self).debug_state, old(state)) {
                lemma_break_answer(&old(self).debug_state, &ran, &self.debug_state, old(state), reason, r);
            }
        }
        r
    }

    /// Debugs as `evaluate` does; where that gives an error it is given back, otherwise the
    /// next kernel runs.
    fn evaluate_chain(&mut self, state: &mut ForthState) -> (r: ForthResult)
        ensures
            debugged_before_step(&old(self).debug_state, &final(self).debug_state, old(state)),
            break_reason(&old(self).debug_state, old(state)) is None ==> (old(
                self,
            ).debug_state.current_error matches Some(e) ==> r == Err::<(), Error>(e) && *final(state) == *old(state)
                && final(self).next_kernel == old(self).next_kernel),
    {
        match self.evaluate(state) {
            Ok(()) => self.next_kernel.evaluate_chain(state),
            Err(e) => Err(e),
        }
    }

    /// Debugs an error; gives back the error a debug command left (`EXIT` leaves the one
    /// debugged). The end of the input and a halt are given back without debugging.
    fn handle_error(&mut self, state: &mut ForthState, error: Error) -> (r: ForthResult)
        ensures
            *final(state) == *old(state),
            final(self).next_kernel == old(self).next_kernel,
            ends_evaluation(error) ==> r == Err::<(), Error>(error) && *final(self) == *old(self),
            !ends_evaluation(error) ==> debugged_error(&old(self).debug_state, &final(self).debug_state, old(state), error),
    {
        match error {
            Error::TokenStreamEmpty => {
                return Err(Error::TokenStreamEmpty);
            },
            Error::Halt => {
                return Err(Error::Halt);
            },
            other => {
                self.debug_state.current_error = Some(other);
            },
        }
        let ghost start = self.debug_state;
        proof {
            assert(start == with_error(old(self).debug_state, error));
        }
        self.debug_state.debug(state);
        let ghost ran = self.debug_state;
        let r = match self.debug_state.current_error.take() {
            Some(e) => Err(e),
            None => Ok(()),
        };
        proof {
            assert(error_taken(&ran, &self.debug_state, r));
            assert(debug_session(&start, &self.debug_state, state, r));
        }
        r
    }

    /// Debugs the error as `handle_error` does; an error that ends the evaluation, or one a
    /// debug command left, goes on to the next kernel.
    fn handle_error_chain(&mut self, state: &mut ForthState, error: Error) -> (r: ForthResult)
        ensures
            ends_evaluation(error) ==> final(self).debug_state == old(self).debug_state,
            !ends_evaluation(error) ==> debugged_error(&old(self).debug_state, &final(self).debug_state, old(state), error),
    {
        match self.handle_error(state, error) {
            Ok(()) => Ok(()),
            Err(e) => self.next_kernel.handle_error(state, e),
        }
    }
}

/// What `debug` does to a machine, and what it answers.
pub open spec fn debug_effect(old: &ForthState, new: &ForthState, r: ForthResult) -> bool {
    &&& (r is Ok)
    &&& (*new == *old)
}

/// The `DEBUG` word: it does nothing itself; a debug kernel stops the machine where it runs.
pub fn debug(state: &mut ForthState) -> (r: ForthResult)

    ensures
        debug_effect(old(state), final(state), r),
{
    Ok(())
}

} // verus!
