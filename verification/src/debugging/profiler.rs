use vstd::prelude::*;
use vstd::string::*;
use crate::evaluate::definition::ExecutionToken;
use crate::evaluate::execution::Field;
use crate::evaluate::kernels::Kernel;
use crate::evaluate::{Error, ForthResult, ForthState};
use crate::io::format::{decimal, decimal_string, push_right_aligned, right_aligned};
use crate::io::output_stream::{OutputStream, wrote};
use crate::io::tokens::{skip_space, upper_text, word_end};
use super::debug_operations::{execution_token_text, stringify_execution_token};
use crate::evaluate::definition::text_definition;

verus! {

/// `n + 1`, wrapping around at the largest `usize`.
pub open spec fn wrapping_inc(n: usize) -> usize {
    if n == usize::MAX {
        0
    } else {
        (n + 1) as usize
    }
}

fn wrapping_increment(n: usize) -> (r: usize)
    ensures r == wrapping_inc(n),
{
    if n == usize::MAX {
        0
    } else {
        n + 1
    }
}

/// The position of `xt` among the first `n` counted instructions, or -1.
pub open spec fn token_index(entries: Seq<(ExecutionToken, usize)>, xt: ExecutionToken, n: nat) -> int
    decreases n,
{
    if n == 0 {
        -1
    } else if entries[n - 1].0 == xt {
        n - 1
    } else {
        token_index(entries, xt, (n - 1) as nat)
    }
}

/// The counts after one more run of `xt`: its count goes up, or it is added with a count of one.
pub open spec fn counted(entries: Seq<(ExecutionToken, usize)>, xt: ExecutionToken) -> Seq<(ExecutionToken, usize)> {
    let i = token_index(entries, xt, entries.len());
    if i >= 0 {
        entries.update(i, (xt, wrapping_inc(entries[i].1)))
    } else {
        entries.push((xt, 1))
    }
}

/// How many instructions ran, and how often each one did.
pub struct ProfilerInformation {
    total_instruction_count: usize,
    instruction_counts: Vec<(ExecutionToken, usize)>,
}

impl ProfilerInformation {
    /// The number of instructions that ran (wrapping around at the largest `usize`).
    pub closed spec fn spec_total(&self) -> usize {
        self.total_instruction_count
    }

    /// Each instruction that ran with its count, in the order they first ran.
    pub closed spec fn spec_entries(&self) -> Seq<(ExecutionToken, usize)> {
        self.instruction_counts@
    }

    /// No instruction is counted twice.
    pub closed spec fn wf(&self) -> bool {
        forall|i: int, j: int|
            0 <= i < j < self.instruction_counts@.len() ==> #[trigger] self.instruction_counts@[i].0
                != #[trigger] self.instruction_counts@[j].0
    }

    /// No instruction counted yet.
    pub fn new() -> (r: Self)
        ensures
            r.wf(),
            r.spec_total() == 0,
            r.spec_entries() == Seq::<(ExecutionToken, usize)>::empty(),
    {
        ProfilerInformation { total_instruction_count: 0, instruction_counts: Vec::new() }
    }

    /// Counts one more run of `instruction`.
    pub fn record_instruction(&mut self, instruction: ExecutionToken)
        requires old(self).wf(),
        ensures
            final(self).wf(),
            final(self).spec_total() == wrapping_inc(old(self).spec_total()),
            final(self).spec_entries() == counted(old(self).spec_entries(), instruction),
    {
        self.total_instruction_count = wrapping_increment(self.total_instruction_count);
        let mut i = self.instruction_counts.len();
        while i > 0
            invariant
                i <= self.instruction_counts@.len(),
                self.instruction_counts@ == old(self).instruction_counts@,
                self.wf(),
                self.total_instruction_count == wrapping_inc(old(self).total_instruction_count),
                token_index(self.instruction_counts@, instruction, self.instruction_counts@.len())
                    == token_index(self.instruction_counts@, instruction, i as nat),
            decreases i,
        {
            i = i - 1;
            if self.instruction_counts[i].0 == instruction {
                let count = wrapping_increment(self.instruction_counts[i].1);
                self.instruction_counts.set(i, (instruction, count));
                assert forall|a: int, b: int|
                    0 <= a < b < self.instruction_counts@.len() implies #[trigger] self.instruction_counts@[a].0
                        != #[trigger] self.instruction_counts@[b].0 by {
                    assert(old(self).instruction_counts@[a].0 != old(self).instruction_counts@[b].0);
                }
                return;
            }
        }
        proof {
            assert forall|k: int| 0 <= k < old(self).instruction_counts@.len() implies #[trigger] old(
                self,
            ).instruction_counts@[k].0 != instruction by {
                lemma_token_index_finds(old(self).instruction_counts@, instruction, old(self).instruction_counts@.len(), k);
            }
        }
        self.instruction_counts.push((instruction, 1));
        assert forall|a: int, b: int|
            0 <= a < b < self.instruction_counts@.len() implies #[trigger] self.instruction_counts@[a].0
                != #[trigger] self.instruction_counts@[b].0 by {
            if b < old(self).instruction_counts@.len() {
                assert(old(self).instruction_counts@[a].0 != old(self).instruction_counts@[b].0);
            }
        }
    }

    /// Writes the total and each instruction's count to the machine's output.
    pub fn dump_statistics(&self, state: &mut ForthState)
        requires old(state).wf(),
        ensures
            final(state).wf(),
            final(state).unchanged_except(old(state), set![Field::Output]),
            wrote(
                &old(state).output_stream,
                &final(state).output_stream,
                statistics_text(old(state), self.spec_total(), self.spec_entries()),
            ),
    {
        let mut s = String::from_str("total instructions: ");
        let t = decimal(self.total_instruction_count as i128);
        s.append(t.as_str());
        s.append("\n");
        let ghost head = s@;
        let mut i: usize = 0;
        while i < self.instruction_counts.len()
            invariant
                state.wf(),
                i <= self.instruction_counts@.len(),
                s@ == head + statistics_lines(state, self.instruction_counts@, i as nat),
            decreases self.instruction_counts@.len() - i,
        {
            s.append("   ");
            let (instruction, count) = self.instruction_counts[i];
            let text = stringify_execution_token(state, instruction);
            push_right_aligned(&mut s, text.as_str(), 30);
            s.append(": ");
            let c = decimal(count as i128);
            s.append(c.as_str());
            s.append("\n");
            i = i + 1;
            assert(s@ =~= head + statistics_lines(state, self.instruction_counts@, i as nat));
        }
        state.output_stream.write(s.as_str());
    }
}

/// Every position below `n` before the one `token_index` finds holds another instruction.
proof fn lemma_token_index_finds(entries: Seq<(ExecutionToken, usize)>, xt: ExecutionToken, n: nat, k: int)
    requires
        token_index(entries, xt, n) < 0,
        0 <= k < n,
    ensures
        entries[k].0 != xt,
    decreases n,
{
    if k < n - 1 {
        lemma_token_index_finds(entries, xt, (n - 1) as nat, k);
    }
}

/// The lines of the first `n` counts.
pub open spec fn statistics_lines(state: &ForthState, entries: Seq<(ExecutionToken, usize)>, n: nat) -> Seq<char>
    decreases n,
{
    if n == 0 {
        Seq::empty()
    } else {
        statistics_lines(state, entries, (n - 1) as nat) + "   "@ + right_aligned(
            execution_token_text(state, entries[n - 1].0),
            30,
        ) + ": "@ + decimal_string(entries[n - 1].1 as int) + "\n"@
    }
}

/// The statistics of a profile: the total, then each instruction with its count.
pub open spec fn statistics_text(state: &ForthState, total: usize, entries: Seq<(ExecutionToken, usize)>) -> Seq<char> {
    "total instructions: "@ + decimal_string(total as int) + "\n"@ + statistics_lines(state, entries, entries.len())
}

/// The statistics text depends only on the dictionary and the compiled instructions.
proof fn lemma_statistics_text_same(s1: &ForthState, s2: &ForthState, total: usize, entries: Seq<(ExecutionToken, usize)>)
    requires
        s1.definitions == s2.definitions,
        s1.compiled_instructions == s2.compiled_instructions,
    ensures
        statistics_text(s1, total, entries) == statistics_text(s2, total, entries),
{
    lemma_statistics_lines_same(s1, s2, entries, entries.len());
}

proof fn lemma_statistics_lines_same(s1: &ForthState, s2: &ForthState, entries: Seq<(ExecutionToken, usize)>, n: nat)
    requires
        s1.definitions == s2.definitions,
        s1.compiled_instructions == s2.compiled_instructions,
    ensures
        statistics_lines(s1, entries, n) == statistics_lines(s2, entries, n),
    decreases n,
{
    if n > 0 {
        lemma_statistics_lines_same(s1, s2, entries, (n - 1) as nat);
        assert(execution_token_text(s1, entries[n - 1].0) == execution_token_text(s2, entries[n - 1].0));
    }
}

/// The word whose runs are profiled, and where it was when it was entered.
#[derive(Clone, Copy, PartialEq, Eq, Structural, Debug)]
pub struct ProfilingWord {
    pub execution_token: ExecutionToken,
    pub stack_depth: u64,
    pub manually_called: bool,
}

impl ProfilingWord {
    pub fn new(execution_token: ExecutionToken) -> (r: Self)
        ensures r == (ProfilingWord { execution_token, stack_depth: 0, manually_called: false }),
    {
        ProfilingWord { execution_token, stack_depth: 0, manually_called: false }
    }
}

/// Whether recording goes on: a word entered by hand is left when the machine waits for
/// input again; a word jumped to is left when the return stack is back at its depth.
pub open spec fn recording_after(recording: bool, word: Option<ProfilingWord>, state: &ForthState) -> bool {
    match word {
        Some(w) => if recording {
            if w.manually_called {
                state.instruction_pointer is Some
            } else {
                w.stack_depth < state.return_stack@.len()
            }
        } else {
            recording
        },
        None => recording,
    }
}

/// Recording and the profiled word after the profiled word may have been entered by `xt`.
pub open spec fn profile_step(recording: bool, word: Option<ProfilingWord>, state: &ForthState, xt: ExecutionToken) -> (
    bool,
    Option<ProfilingWord>,
) {
    let rec = recording_after(recording, word, state);
    match word {
        Some(w) => if w.execution_token == xt && !rec {
            (
                true,
                Some(
                    ProfilingWord {
                        execution_token: w.execution_token,
                        stack_depth: state.return_stack@.len() as u64,
                        manually_called: state.instruction_pointer is None,
                    },
                ),
            )
        } else {
            (rec, word)
        },
        None => (rec, word),
    }
}

/// A kernel that counts the instructions a machine runs: all of them, and those run while
/// recording (between `PROFILE_START` and `PROFILE_END`, or inside the word named by
/// `PROFILE_WORD`); then chains to `KN`.
pub struct ProfilerKernel<KN: Kernel> {
    pub global_information: ProfilerInformation,
    pub local_information: ProfilerInformation,
    pub recording: bool,
    pub profiling_word: Option<ProfilingWord>,
    pub next_kernel: KN,
}

/// `new` counts one more run of `xt` than `old`.
pub open spec fn recorded(old: &ProfilerInformation, new: &ProfilerInformation, xt: ExecutionToken) -> bool {
    &&& new.spec_total() == wrapping_inc(old.spec_total())
    &&& new.spec_entries() == counted(old.spec_entries(), xt)
}

/// `info` has counted nothing.
pub open spec fn is_empty_profile(info: &ProfilerInformation) -> bool {
    info.spec_total() == 0 && info.spec_entries() == Seq::<(ExecutionToken, usize)>::empty()
}

/// The profiler's counts, recording and profiled word are as in `old`.
pub open spec fn same_profile<KN: Kernel>(old: &ProfilerKernel<KN>, new: &ProfilerKernel<KN>) -> bool {
    &&& new.global_information == old.global_information
    &&& new.local_information == old.local_information
    &&& new.recording == old.recording
    &&& new.profiling_word == old.profiling_word
}

/// What the profiler's counts, recording and profiled word become before a step that runs
/// the current instruction of `state`.
pub open spec fn profiled_step<KN: Kernel>(old: &ProfilerKernel<KN>, new: &ProfilerKernel<KN>, state: &ForthState) -> bool {
    match state.current_instruction {
        None => same_profile(old, new),
        Some(xt) => {
            let (rec, word) = profile_step(old.recording, old.profiling_word, state, xt);
            &&& recorded(&old.global_information, &new.global_information, xt)
            &&& new.recording == rec
            &&& new.profiling_word == word
            &&& rec ==> recorded(&old.local_information, &new.local_information, xt)
            &&& !rec ==> new.local_information == old.local_information
        },
    }
}

/// What the profiler's error handling does: the profiling commands, which are unknown words
/// to the machine, and any other error, which it gives back.
pub open spec fn profiler_handled<KN: Kernel>(
    old: &ProfilerKernel<KN>,
    new: &ProfilerKernel<KN>,
    old_state: &ForthState,
    new_state: &ForthState,
    error: Error,
    r: ForthResult,
) -> bool {
    match error {
        Error::UnknownWord(w) => if w@ == "PROFILE_START"@ {
            &&& r is Ok
            &&& *new_state == *old_state
            &&& new.recording
            &&& new.profiling_word is None
            &&& is_empty_profile(&new.local_information)
            &&& new.global_information == old.global_information
        } else if w@ == "PROFILE_END"@ {
            &&& r is Ok
            &&& new_state.unchanged_except(old_state, set![Field::Output])
            &&& wrote(
                &old_state.output_stream,
                &new_state.output_stream,
                statistics_text(
                    old_state,
                    old.local_information.spec_total(),
                    old.local_information.spec_entries(),
                ),
            )
            &&& !new.recording
            &&& new.profiling_word is None
            &&& new.local_information == old.local_information
            &&& new.global_information == old.global_information
        } else if w@ == "PROFILE_STATS"@ {
            &&& r is Ok
            &&& new_state.unchanged_except(old_state, set![Field::Output])
            &&& wrote(
                &old_state.output_stream,
                &new_state.output_stream,
                "Global Profiling Stats:"@ + "\n"@ + statistics_text(
                    old_state,
                    old.global_information.spec_total(),
                    old.global_information.spec_entries(),
                ) + "Local Profiling Stats:"@ + "\n"@ + statistics_text(
                    old_state,
                    old.local_information.spec_total(),
                    old.local_information.spec_entries(),
                ),
            )
            &&& same_profile(old, new)
        } else if w@ == "PROFILE_WORD"@ {
            let rest = old_state.input_stream.spec_rest();
            let start = skip_space(rest, 0);
            let end = word_end(rest, start);
            let text = rest.subrange(start as int, end as int);
            &&& new_state.unchanged_except(old_state, set![Field::Input, Field::Output])
            &&& if start >= rest.len() {
                &&& r == Err::<(), Error>(Error::NoMoreTokens)
                &&& new_state.output_stream == old_state.output_stream
                &&& same_profile(old, new)
            } else {
                match text_definition(&old_state.definitions, text) {
                    None => {
                        &&& r matches Err(Error::UnknownWord(u)) && u@ == upper_text(text)
                        &&& new_state.output_stream == old_state.output_stream
                        &&& same_profile(old, new)
                    },
                    Some(d) => {
                        &&& r is Ok
                        &&& new.profiling_word == Some(
                            ProfilingWord { execution_token: d.execution_token, stack_depth: 0, manually_called: false },
                        )
                        &&& is_empty_profile(&new.local_information)
                        &&& new.global_information == old.global_information
                        &&& new.recording == old.recording
                        &&& wrote(
                            &old_state.output_stream,
                            &new_state.output_stream,
                            "Profiling "@ + execution_token_text(old_state, d.execution_token) + "\n"@,
                        )
                    },
                }
            }
        } else {
            r == Err::<(), Error>(error) && *new_state == *old_state && same_profile(old, new)
        },
        _ => r == Err::<(), Error>(error) && *new_state == *old_state && same_profile(old, new),
    }
}

impl<KN: Kernel> Kernel for ProfilerKernel<KN> {
    open spec fn inv(&self) -> bool {
        self.global_information.wf() && self.local_information.wf() && self.next_kernel.inv()
    }

    /// The next kernel is made; the profiler starts with empty profiles, not recording and
    /// with no word profiled.
    open spec fn initialized(&self, old_state: &ForthState, new_state: &ForthState) -> bool {
        &&& self.next_kernel.initialized(old_state, new_state)
        &&& is_empty_profile(&self.global_information)
        &&& is_empty_profile(&self.local_information)
        &&& !self.recording
        &&& self.profiling_word is None
    }

    /// The profile changes as `profiled_step` says, and the next kernel's chain runs.
    open spec fn evaluates_chain(&self, new: &Self, old_state: &ForthState, new_state: &ForthState, r: ForthResult) -> bool {
        &&& profiled_step(self, new, old_state)
        &&& self.next_kernel.evaluates_chain(&new.next_kernel, old_state, new_state, r)
    }

    /// As `profiler_handled` says, and the next kernel stays as it was.
    open spec fn handles(&self, new: &Self, old_state: &ForthState, new_state: &ForthState, error: Error, r: ForthResult) -> bool {
        &&& new.next_kernel == self.next_kernel
        &&& profiler_handled(self, new, old_state, new_state, error, r)
    }

    /// The profiler handles the error as `handles` says; an error it gives back goes on to
    /// the next kernel's `handle_error`.
    open spec fn handles_chain(
        &self,
        new: &Self,
        old_state: &ForthState,
        new_state: &ForthState,
        error: Error,
        r: ForthResult,
    ) -> bool {
        exists|mid: Self, mid_state: ForthState, handled: ForthResult|
            {
                &&& #[trigger] self.handles(&mid, old_state, &mid_state, error, handled)
                &&& same_profile(&mid, new)
                &&& match handled {
                    Ok(()) => r is Ok && *new_state == mid_state && new.next_kernel == mid.next_kernel,
                    Err(e) => mid.next_kernel.handles(&new.next_kernel, &mid_state, new_state, e, r),
                }
            }
    }

    fn new(state: &mut ForthState) -> (r: Self) {
        ProfilerKernel {
            global_information: ProfilerInformation::new(),
            local_information: ProfilerInformation::new(),
            recording: false,
            profiling_word: None,
            next_kernel: KN::new(state),
        }
    }

    /// Counts the instruction about to run, and, while recording, counts it in the local
    /// profile too.
    fn evaluate(&mut self, state: &mut ForthState) -> (r: ForthResult)
        ensures
            r is Ok,
            *final(state) == *old(state),
            final(self).next_kernel == old(self).next_kernel,
            profiled_step(old(self), final(self), old(state)),
    {
        match state.current_instruction {
            Some(current_instruction) => {
                self.global_information.record_instruction(current_instruction);
                match self.profiling_word {
                    Some(word) => if self.recording {
                        self.recording = if word.manually_called {
                            state.instruction_pointer.is_some()
                        } else {
                            word.stack_depth < state.return_stack.len().0
                        };
                    },
                    None => {},
                }
                match self.profiling_word {
                    Some(word) => if word.execution_token == current_instruction && !self.recording {
                        self.profiling_word = Some(
                            ProfilingWord {
                                execution_token: word.execution_token,
                                stack_depth: state.return_stack.len().0,
                                manually_called: state.instruction_pointer.is_none(),
                            },
                        );
                        self.recording = true;
                    },
                    None => {},
                }
                if self.recording {
                    self.local_information.record_instruction(current_instruction);
                }
            },
            None => {},
        }
        Ok(())
    }

    /// Profiles as `evaluate` does, then the next kernel runs.
    fn evaluate_chain(&mut self, state: &mut ForthState) -> (r: ForthResult)
        ensures
            profiled_step(old(self), final(self), old(state)),
    {
        match self.evaluate(state) {
            Ok(()) => self.next_kernel.evaluate_chain(state),
            Err(e) => Err(e),
        }
    }

    /// Handles the profiling commands, which are unknown words to the machine:
    /// `PROFILE_START` starts recording afresh, `PROFILE_END` stops it and shows the local
    /// profile, `PROFILE_STATS` shows both profiles, and `PROFILE_WORD` reads a word and
    /// records the runs of what it runs afresh. Other errors are given back.
    fn handle_error(&mut self, state: &mut ForthState, error: Error) -> (r: ForthResult)
        ensures
            final(self).next_kernel == old(self).next_kernel,
            profiler_handled(old(self), final(self), old(state), final(state), error, r),
    {
        let word = match error {
            Error::UnknownWord(w) => w,
            other => {
                return Err(other);
            },
        };
        if word == String::from_str("PROFILE_START") {
            self.recording = true;
            self.profiling_word = None;
            self.local_information = ProfilerInformation::new();
            Ok(())
        } else if word == String::from_str("PROFILE_END") {
            self.recording = false;
            self.profiling_word = None;
            self.local_information.dump_statistics(state);
            Ok(())
        } else if word == String::from_str("PROFILE_STATS") {
            state.output_stream.writeln("Global Profiling Stats:");
            let ghost s1 = *state;
            self.global_information.dump_statistics(state);
            state.output_stream.writeln("Local Profiling Stats:");
            let ghost s3 = *state;
            self.local_information.dump_statistics(state);
            proof {
                reveal_strlit("\n");
                let g = &self.global_information;
                let l = &self.local_information;
                lemma_statistics_text_same(&s1, old(state), g.spec_total(), g.spec_entries());
                lemma_statistics_text_same(&s3, old(state), l.spec_total(), l.spec_entries());
                let p0 = old(state).output_stream.spec_pending();
                let gt = statistics_text(old(state), g.spec_total(), g.spec_entries());
                let lt = statistics_text(old(state), l.spec_total(), l.spec_entries());
                if old(state).output_stream.spec_keeps() {
                    assert(p0 + "Global Profiling Stats:"@ + seq!['\n'] + gt + "Local Profiling Stats:"@ + seq!['\n'] + lt
                        =~= p0 + ("Global Profiling Stats:"@ + "\n"@ + gt + "Local Profiling Stats:"@ + "\n"@ + lt));
                }
            }
            Ok(())
        } else if word == String::from_str("PROFILE_WORD") {
            let token = match state.input_stream.next() {
                Ok(t) => t,
                Err(e) => {
                    return Err(e);
                },
            };
            let execution_token = match state.definitions.get_from_token(token) {
                Ok(definition) => definition.execution_token,
                Err(e) => {
                    return Err(e);
                },
            };
            self.profiling_word = Some(ProfilingWord::new(execution_token));
            self.local_information = ProfilerInformation::new();
            let mut s = String::from_str("Profiling ");
            let t = stringify_execution_token(state, execution_token);
            s.append(t.as_str());
            assert(execution_token_text(state, execution_token) == execution_token_text(old(state), execution_token));
            state.output_stream.writeln(s.as_str());
            proof {
                reveal_strlit("\n");
                let p0 = old(state).output_stream.spec_pending();
                assert(p0 + s@ + seq!['\n'] =~= p0 + ("Profiling "@ + execution_token_text(old(state), execution_token)
                    + "\n"@));
            }
            Ok(())
        } else {
            Err(Error::UnknownWord(word))
        }
    }

    /// Handles the error as `handle_error` does; an error it gives back goes on to the next
    /// kernel.
    fn handle_error_chain(&mut self, state: &mut ForthState, error: Error) -> (r: ForthResult)
        ensures
            exists|mid: ProfilerKernel<KN>, mid_state: ForthState, handled: ForthResult|
                {
                    &&& #[trigger] profiler_handled(old(self), &mid, old(state), &mid_state, error, handled)
                    &&& same_profile(&mid, final(self))
                    &&& handled is Ok ==> r is Ok && *final(state) == mid_state
                },
    {
        let handled = self.handle_error(state, error);
        let ghost mid = *self;
        let ghost mid_state = *state;
        assert(profiler_handled(old(self), &mid, old(state), &mid_state, error, handled));
        assert(old(self).handles(&mid, old(state), &mid_state, error, handled));
        match handled {
            Ok(()) => Ok(()),
            Err(e) => self.next_kernel.handle_error(state, e),
        }
    }
}

} // verus!
