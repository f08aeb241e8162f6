use vstd::prelude::*;
use crate::evaluate::config::{ForthConfig, default_config};
use crate::evaluate::execution::Field;
use crate::evaluate::kernels::{DefaultKernel, Kernel};
use crate::evaluate::{Error, ExecutionMode, ForthResult, ForthState};
use crate::environment::value::Value;
use crate::environment::memory::{mappings_sorted, sorted_by_base};
use crate::io::output_stream::{BufferedOutputStream, DropOutputStream, OutputSink, kept_output};
use crate::io::tokens::TokenStream;
use crate::operations::{get_operations, operation_table, Operation, UNCOMPILED_OPERATIONS};
use crate::evaluate::definition::{Definition, ExecutionToken};

verus! {

/// Something that can become the output of a Forth machine.
pub trait IntoOutputSink: Sized {
    /// The output this becomes.
    spec fn spec_sink(self) -> OutputSink;

    fn into_sink(self) -> (r: OutputSink)
        ensures r == self.spec_sink(),
    ;
}

impl IntoOutputSink for OutputSink {
    open spec fn spec_sink(self) -> OutputSink {
        self
    }

    fn into_sink(self) -> (r: OutputSink) {
        self
    }
}

impl IntoOutputSink for BufferedOutputStream {
    open spec fn spec_sink(self) -> OutputSink {
        OutputSink::Buffered(self)
    }

    fn into_sink(self) -> (r: OutputSink) {
        OutputSink::Buffered(self)
    }
}

impl IntoOutputSink for DropOutputStream {
    open spec fn spec_sink(self) -> OutputSink {
        OutputSink::Dropped(self)
    }

    fn into_sink(self) -> (r: OutputSink) {
        OutputSink::Dropped(self)
    }
}

/// Whether an error ends an evaluation normally (the input is used up, or a halt was asked).
pub open spec fn ends_evaluation(e: Error) -> bool {
    e == Error::TokenStreamEmpty || e == Error::Halt
}

/// Whether a configuration's segments leave room for the machine's own state.
pub open spec fn config_fits(config: ForthConfig) -> bool {
    &&& config.internal_state_memory_addr + 8 <= u64::MAX
}

impl ForthState {
    /// Whether `s` is a new machine laid out as `config` says: its segments are empty and
    /// mapped as `initial_mappings` says (ordered by base), it interprets, it has no instruction pointer, no
    /// current instruction and no input, and its dictionary holds exactly the built-in
    /// operations under their names.
    pub open spec fn is_initial(s: &Self, config: ForthConfig) -> bool {
        &&& s.wf()
        &&& s.config == config
        &&& s.stack@ =~= Seq::<Value>::empty()
        &&& s.return_stack@ =~= Seq::<Value>::empty()
        &&& s.data_space.view() =~= Seq::<Value>::empty()
        &&& s.pad.view() =~= Seq::<Value>::empty()
        &&& s.stack.spec_stack_base().raw() == config.stack_addr
        &&& s.return_stack.spec_stack_base().raw() == config.return_stack_addr
        &&& s.data_space.spec_base_address().raw() == config.data_space_addr
        &&& s.pad.spec_base_address().raw() == config.pad_addr
        &&& s.spec_execution_mode() == ExecutionMode::Interpret
        &&& s.instruction_pointer is None
        &&& s.current_instruction is None
        &&& s.input_stream.spec_rest() =~= Seq::<char>::empty()
        &&& s.compiled_instructions@.len() == 0
        &&& s.spec_anonymous_pages().len() == 0
        &&& s.spec_memory_map() == sorted_by_base(ForthState::initial_mappings(config))
        &&& mappings_sorted(s.spec_memory_map())
        &&& s.definitions.spec_definitions() =~= operation_table().map_values(
            |t: (&'static str, bool, Operation)|
                Definition { execution_token: ExecutionToken::LeafOperation(t.2), immediate: t.1 },
        )
        &&& s.definitions.spec_names() =~= operation_table().map_values(|t: (&'static str, bool, Operation)| t.0@)
        &&& s.definitions.spec_temp_names().len() == 0
        &&& s.definitions.spec_temp_definitions().len() == 0
    }

    /// A machine laid out as `config` says, with all built-in operations defined.
    pub fn new(config: ForthConfig) -> (r: Self)
        requires config_fits(config),
        ensures
            ForthState::is_initial(&r, config),
    {
        let s = ForthState::new_empty(config).with_operations(get_operations());
        proof {
            assert(s.definitions.spec_names() =~= operation_table().map_values(
                |t: (&'static str, bool, Operation)| t.0@,
            ));
            assert(s.definitions.spec_definitions() =~= operation_table().map_values(
                |t: (&'static str, bool, Operation)|
                    Definition { execution_token: ExecutionToken::LeafOperation(t.2), immediate: t.1 },
            ));
        }
        s
    }
}

/// Whether `new` is `old` after evaluating `text` as `evaluate_string` does, answering
/// `r`: the machine reads `text` in place of any input left, and runs as `evaluated_in`
/// says.
pub open spec fn text_evaluated<K: Kernel>(old: Forth<K>, new: Forth<K>, text: Seq<char>, r: ForthResult) -> bool {
    exists|start: Forth<K>|
        {
            &&& start.state.input_stream.spec_rest() == text
            &&& start.state.unchanged_except(&old.state, set![Field::Input])
            &&& start.kernel == old.kernel
            &&& #[trigger] evaluated_in(start, new, r, u64::MAX as nat)
        }
}

/// Whether `new` is `old` after evaluating the first `count` of `texts` in turn, each as
/// `evaluate_string` does, whatever each answered.
pub open spec fn texts_evaluated<K: Kernel>(old: Forth<K>, new: Forth<K>, texts: Seq<&'static str>, count: nat) -> bool
    decreases count,
{
    if count == 0 {
        new == old
    } else {
        exists|mid: Forth<K>, r: ForthResult|
            texts_evaluated(old, mid, texts, (count - 1) as nat) && #[trigger] text_evaluated(
                mid,
                new,
                texts[count - 1]@,
                r,
            )
    }
}

/// Evaluating one more text extends a run of texts.
pub proof fn lemma_texts_evaluated_step<K: Kernel>(
    old: Forth<K>,
    mid: Forth<K>,
    new: Forth<K>,
    texts: Seq<&'static str>,
    count: nat,
    r: ForthResult,
)
    requires
        count < texts.len(),
        texts_evaluated(old, mid, texts, count),
        text_evaluated(mid, new, texts[count as int]@, r),
    ensures
        texts_evaluated(old, new, texts, count + 1),
{
    assert(texts[(count + 1) - 1] == texts[count as int]);
}

/// Whether `forth` is a machine started as `Forth::with_config` does with `config`: a new
/// machine (`is_initial`), then its kernel made (`initialized`), then the words defined in
/// Forth evaluated in turn.
pub open spec fn started<K: Kernel>(forth: Forth<K>, config: ForthConfig) -> bool {
    exists|fresh: ForthState, start: Forth<K>|
        {
            &&& ForthState::is_initial(&fresh, config)
            &&& #[trigger] start.kernel.initialized(&fresh, &start.state)
            &&& texts_evaluated(start, forth, UNCOMPILED_OPERATIONS@, 7)
        }
}

/// What running at most `fuel` steps from `old` gives: steps run while they answer `Ok`;
/// the end of the input or a halt ends the run with `Ok`, any other error ends it with that
/// error, and the run ends with `Ok` once `fuel` steps have run.
pub open spec fn evaluated_in<K: Kernel>(old: Forth<K>, new: Forth<K>, r: ForthResult, fuel: nat) -> bool
    decreases fuel,
{
    if fuel == 0 {
        r is Ok && new == old
    } else {
        exists|mid: Forth<K>, answer: ForthResult|
            #[trigger] stepped(&old, &mid, answer) && match answer {
                Ok(()) => evaluated_in(mid, new, r, (fuel - 1) as nat),
                Err(e) => new == mid && if ends_evaluation(e) {
                    r is Ok
                } else {
                    r == Err::<(), Error>(e)
                },
            }
    }
}

/// What one step of `old` does, in terms of its parts: the kernel's chain runs
/// (`evaluates_chain`); where it answers `Ok` the current instruction executes
/// (`instruction_executed`); an error of these goes to the kernel's `handle_error_chain`
/// (`handles_chain`); where all is `Ok` so far the next instruction is fetched
/// (`instruction_fetched`); and an error that is left then goes to `handle_error_chain`
/// again. The step ends with `new` and answers `r`.
pub open spec fn stepped<K: Kernel>(old: &Forth<K>, new: &Forth<K>, r: ForthResult) -> bool {
    exists|k1: K, s1: ForthState, evaluated: ForthResult|
        #[trigger] old.kernel.evaluates_chain(&k1, &old.state, &s1, evaluated) && step_executed(
            k1,
            s1,
            evaluated,
            new,
            r,
        )
}

/// The rest of a step once the kernel `k` has run and answered `evaluated`, the machine
/// being `state`.
pub open spec fn step_executed<K: Kernel>(k: K, state: ForthState, evaluated: ForthResult, new: &Forth<K>, r: ForthResult) -> bool {
    match evaluated {
        Ok(()) => exists|executed_state: ForthState, first: ForthResult|
            #[trigger] ForthState::instruction_executed(&state, &executed_state, first) && step_handled(
                k,
                executed_state,
                first,
                new,
                r,
            ),
        Err(e) => step_handled(k, state, Err(e), new, r),
    }
}

/// The rest of a step once its first part answered `first`.
pub open spec fn step_handled<K: Kernel>(k: K, state: ForthState, first: ForthResult, new: &Forth<K>, r: ForthResult) -> bool {
    match first {
        Ok(()) => step_finished(k, state, Ok(()), new, r),
        Err(e) => exists|handled_kernel: K, handled_state: ForthState, handled: ForthResult|
            #[trigger] k.handles_chain(&handled_kernel, &state, &handled_state, e, handled) && step_finished(
                handled_kernel,
                handled_state,
                handled,
                new,
                r,
            ),
    }
}

/// The rest of a step once the error of its first part, if any, was handled with the
/// answer `handled`.
pub open spec fn step_finished<K: Kernel>(k: K, state: ForthState, handled: ForthResult, new: &Forth<K>, r: ForthResult) -> bool {
    match handled {
        Ok(()) => exists|fetched_state: ForthState, fetched: ForthResult|
            #[trigger] ForthState::instruction_fetched(&state, &fetched_state, fetched) && step_answered(
                k,
                fetched_state,
                fetched,
                new,
                r,
            ),
        Err(e) => step_answered(k, state, Err(e), new, r),
    }
}

/// The end of a step once the next instruction was fetched (or not) with the answer
/// `fetched`: `Ok` ends the step; an error goes to the kernel's `handle_error_chain`.
pub open spec fn step_answered<K: Kernel>(k: K, state: ForthState, fetched: ForthResult, new: &Forth<K>, r: ForthResult) -> bool {
    match fetched {
        Ok(()) => r is Ok && new.kernel == k && new.state == state,
        Err(e) => k.handles_chain(&new.kernel, &state, &new.state, e, r),
    }
}

/// A Forth machine: its state and the kernel run in each step.
pub struct Forth<K: Kernel> {
    pub state: ForthState,
    pub kernel: K,
}

impl<K: Kernel> Forth<K> {
    /// The machine's state and its kernel are consistent.
    pub open spec fn wf(&self) -> bool {
        self.state.wf() && self.kernel.inv()
    }
}

impl Forth<DefaultKernel> {
    /// A machine with the default layout and kernel.
    pub fn default() -> (r: Self)
        ensures r.wf(), r.state.config == default_config(), started(r, default_config()),
    {
        Self::new()
    }
}

impl<K: Kernel> Forth<K> {
    /// A machine with the default layout; the words defined in Forth are defined.
    pub fn new() -> (r: Self)
        ensures r.wf(), r.state.config == default_config(), started(r, default_config()),
    {
        Self::with_config(ForthConfig::default())
    }

    /// A machine laid out as `config` says; the words defined in Forth are defined.
    pub fn with_config(config: ForthConfig) -> (r: Self)
        requires config_fits(config),
        ensures r.wf(), r.state.config == config, started(r, config),
    {
        let mut state = ForthState::new(config);
        let ghost fresh = state;
        let kernel = K::new(&mut state);
        let mut forth = Forth { state, kernel };
        let ghost start = forth;
        let mut i: usize = 0;
        while i < 7
            invariant
                forth.wf(),
                forth.state.config == config,
                i <= 7,
                texts_evaluated(start, forth, UNCOMPILED_OPERATIONS@, i as nat),
            decreases 7 - i,
        {
            let ghost before = forth;
            let text = UNCOMPILED_OPERATIONS[i];
            let answer = forth.evaluate_string(text);
            proof {
                lemma_texts_evaluated_step(start, before, forth, UNCOMPILED_OPERATIONS@, i as nat, answer);
            }
            i = i + 1;
        }
        proof {
            assert(start.kernel.initialized(&fresh, &start.state));
        }
        forth
    }

    /// Writes further output to `output`.
    pub fn set_output_stream<O: IntoOutputSink>(&mut self, output: O)
        requires old(self).wf(),
        ensures
            final(self).wf(),
            final(self).state.unchanged_except(&old(self).state, set![Field::Output]),
            final(self).state.output_stream == output.spec_sink(),
            final(self).kernel == old(self).kernel,
    {
        self.state.output_stream = output.into_sink();
    }

    pub fn with_output_stream<O: IntoOutputSink>(self, output: O) -> (r: Self)
        requires self.wf(),
        ensures
            r.wf(),
            r.state.unchanged_except(&self.state, set![Field::Output]),
            r.state.output_stream == output.spec_sink(),
            r.kernel == self.kernel,
    {
        let mut s = self;
        s.set_output_stream(output);
        s
    }

    /// Reads further input from `input`.
    pub fn set_input_string(&mut self, input: &str)
        requires old(self).wf(),
        ensures
            final(self).wf(),
            final(self).state.config == old(self).state.config,
            final(self).state.input_stream.spec_rest() == input@,
            final(self).state.unchanged_except(&old(self).state, set![Field::Input]),
            final(self).kernel == old(self).kernel,
    {
        self.state.input_stream = TokenStream::new(input);
    }

    pub fn with_input_string(self, input: &str) -> (r: Self)
        requires self.wf(),
        ensures r.wf(), r.state.config == self.state.config, r.state.input_stream.spec_rest() == input@,
    {
        let mut s = self;
        s.set_input_string(input);
        s
    }

    /// Reads further input from the given characters.
    pub fn set_input_stream(&mut self, input: Vec<char>)
        requires old(self).wf(),
        ensures
            final(self).wf(),
            final(self).state.config == old(self).state.config,
            final(self).state.input_stream.spec_rest() == input@,
            final(self).state.unchanged_except(&old(self).state, set![Field::Input]),
            final(self).kernel == old(self).kernel,
    {
        self.state.input_stream = TokenStream::from_chars(input);
    }

    pub fn with_input_stream(self, input: Vec<char>) -> (r: Self)
        requires self.wf(),
        ensures r.wf(), r.state.config == self.state.config, r.state.input_stream.spec_rest() == input@,
    {
        let mut s = self;
        s.set_input_stream(input);
        s
    }

    /// Evaluates `input`.
    pub fn evaluate_string(&mut self, input: &str) -> (r: ForthResult)
        requires old(self).wf(),
        ensures
            final(self).wf(),
            final(self).state.config == old(self).state.config,
            r matches Err(e) ==> !ends_evaluation(e),
            kept_output(&old(self).state.output_stream, &final(self).state.output_stream),
            text_evaluated(*old(self), *final(self), input@, r),
    {
        self.set_input_string(input);
        let ghost start = *self;
        let r = self.evaluate();
        proof {
            assert(evaluated_in(start, *self, r, u64::MAX as nat));
            assert(text_evaluated(*old(self), *self, input@, r));
        }
        r
    }

    /// Evaluates the given characters.
    pub fn evaluate_stream(&mut self, input: Vec<char>) -> (r: ForthResult)
        requires old(self).wf(),
        ensures
            final(self).wf(),
            final(self).state.config == old(self).state.config,
            r matches Err(e) ==> !ends_evaluation(e),
            kept_output(&old(self).state.output_stream, &final(self).state.output_stream),
            text_evaluated(*old(self), *final(self), input@, r),
    {
        self.set_input_stream(input);
        let ghost start = *self;
        let r = self.evaluate();
        proof {
            assert(evaluated_in(start, *self, r, u64::MAX as nat));
            assert(text_evaluated(*old(self), *self, input@, r));
        }
        r
    }

    /// One step of evaluation: the kernel runs, the current instruction executes, and the
    /// next one is fetched; the kernel may handle the errors of each part.
    pub fn step(&mut self) -> (r: ForthResult)
        requires old(self).wf(),
        ensures final(self).wf(), final(self).state.config == old(self).state.config,
            kept_output(&old(self).state.output_stream, &final(self).state.output_stream),
            stepped(old(self), final(self), r),
    {
        let ghost k0 = self.kernel;
        let ghost s0 = self.state;
        let evaluated = self.kernel.evaluate_chain(&mut self.state);
        let ghost k1 = self.kernel;
        let ghost s1 = self.state;
        let first = match evaluated {
            Ok(()) => self.state.execute_current_instruction(),
            Err(e) => Err(e),
        };
        let ghost s2 = self.state;
        let ghost first_answer = first;
        let handled = match first {
            Ok(()) => Ok(()),
            Err(e) => self.kernel.handle_error_chain(&mut self.state, e),
        };
        let ghost k3 = self.kernel;
        let ghost s3 = self.state;
        let fetched = match handled {
            Ok(()) => self.state.fetch_current_instruction(),
            Err(e) => Err(e),
        };
        let ghost s4 = self.state;
        let r = match fetched {
            Ok(()) => Ok(()),
            Err(e) => self.kernel.handle_error_chain(&mut self.state, e),
        };
        proof {
            let fin = *self;
            let first = first_answer;
            assert(step_answered(k3, s4, fetched, &fin, r));
            if handled is Ok {
                assert(ForthState::instruction_fetched(&s3, &s4, fetched));
            }
            assert(step_finished(k3, s3, handled, &fin, r));
            if first is Err {
                assert(k1.handles_chain(&k3, &s2, &s3, first->Err_0, handled));
            }
            assert(step_handled(k1, s2, first, &fin, r));
            if evaluated is Ok {
                assert(ForthState::instruction_executed(&s1, &s2, first));
            }
            assert(step_executed(k1, s1, evaluated, &fin, r));
            assert(k0.evaluates_chain(&k1, &s0, &s1, evaluated));
        }
        r
    }

    /// Runs steps until the input is used up or a halt is asked for (both give `Ok`), or a
    /// step fails (its error is given back).
    pub fn evaluate(&mut self) -> (r: ForthResult)
        requires old(self).wf(),
        ensures
            final(self).wf(),
            final(self).state.config == old(self).state.config,
            r matches Err(e) ==> !ends_evaluation(e),
            kept_output(&old(self).state.output_stream, &final(self).state.output_stream),
            evaluated_in(*old(self), *final(self), r, u64::MAX as nat),
    {
        let mut fuel: u64 = u64::MAX;
        while fuel > 0
            invariant
                self.wf(),
                self.state.config == old(self).state.config,
                kept_output(&old(self).state.output_stream, &self.state.output_stream),
                forall|end: Forth<K>, answer: ForthResult|
                    #[trigger] evaluated_in(*self, end, answer, fuel as nat) ==> evaluated_in(
                        *old(self),
                        end,
                        answer,
                        u64::MAX as nat,
                    ),
            decreases fuel,
        {
            let ghost before = *self;
            let answer = self.step();
            let ghost after = *self;
            proof {
                assert(stepped(&before, &after, answer));
                assert(evaluated_in(before, after, answer, fuel as nat) ==> evaluated_in(
                    *old(self),
                    after,
                    answer,
                    u64::MAX as nat,
                ));
            }
            match answer {
                Ok(()) => {},
                Err(Error::TokenStreamEmpty) => {
                    proof {
                        assert(evaluated_in(before, after, Ok(()), fuel as nat));
                    }
                    return Ok(());
                },
                Err(Error::Halt) => {
                    proof {
                        assert(evaluated_in(before, after, Ok(()), fuel as nat));
                    }
                    return Ok(());
                },
                Err(e) => {
                    proof {
                        assert(evaluated_in(before, after, Err(e), fuel as nat));
                    }
                    return Err(e);
                },
            }
            let ghost used = fuel;
            fuel = fuel - 1;
            proof {
                assert forall|end: Forth<K>, ending: ForthResult|
                    #[trigger] evaluated_in(*self, end, ending, fuel as nat) implies evaluated_in(
                    *old(self),
                    end,
                    ending,
                    u64::MAX as nat,
                ) by {
                    assert(evaluated_in(before, end, ending, used as nat));
                }
            }
        }
        proof {
            assert(evaluated_in(*self, *self, Ok(()), 0));
        }
        Ok(())
    }
}

} // verus!
