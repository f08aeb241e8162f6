use vstd::prelude::*;
use crate::evaluate::{Error, ForthResult, ForthState};
use crate::io::output_stream::kept_output;

verus! {

/// Extra behaviour run in each step of a Forth machine's evaluation loop, and a chance to
/// handle the errors of a step.
pub trait Kernel: Sized {
    /// The kernel's own consistency.
    spec fn inv(&self) -> bool;

    /// What `evaluate_chain` does: the kernel becomes `new`, the machine goes from
    /// `old_state` to `new_state`, and the answer is `r`.
    spec fn evaluates_chain(&self, new: &Self, old_state: &ForthState, new_state: &ForthState, r: ForthResult) -> bool;

    /// What `handle_error` does with `error`: the kernel becomes `new`, the machine goes from
    /// `old_state` to `new_state`, and the answer is `r`.
    spec fn handles(&self, new: &Self, old_state: &ForthState, new_state: &ForthState, error: Error, r: ForthResult) -> bool;

    /// What `handle_error_chain` does with `error`, in the same terms.
    spec fn handles_chain(
        &self,
        new: &Self,
        old_state: &ForthState,
        new_state: &ForthState,
        error: Error,
        r: ForthResult,
    ) -> bool;

    /// What making this kernel did: the machine went from `old_state` to `new_state`.
    spec fn initialized(&self, old_state: &ForthState, new_state: &ForthState) -> bool;

    fn new(state: &mut ForthState) -> (r: Self)
        requires old(state).wf(),
        ensures r.inv(), final(state).wf(),
            final(state).config == old(state).config,
            kept_output(&old(state).output_stream, &final(state).output_stream),
            r.initialized(old(state), final(state)),
    ;

    /// Runs before each step.
    fn evaluate(&mut self, state: &mut ForthState) -> (r: ForthResult)
        requires old(self).inv(), old(state).wf(),
        ensures final(self).inv(), final(state).wf(),
            final(state).config == old(state).config,
            kept_output(&old(state).output_stream, &final(state).output_stream),
    ;

    /// Runs before each step, together with any kernels this one chains to.
    fn evaluate_chain(&mut self, state: &mut ForthState) -> (r: ForthResult)
        requires old(self).inv(), old(state).wf(),
        ensures final(self).inv(), final(state).wf(),
            final(state).config == old(state).config,
            kept_output(&old(state).output_stream, &final(state).output_stream),
            old(self).evaluates_chain(final(self), old(state), final(state), r),
    ;

    /// Handles an error of a step; gives back the error where it does not handle it.
    fn handle_error(&mut self, state: &mut ForthState, error: Error) -> (r: ForthResult)
        requires old(self).inv(), old(state).wf(),
        ensures final(self).inv(), final(state).wf(),
            final(state).config == old(state).config,
            kept_output(&old(state).output_stream, &final(state).output_stream),
            old(self).handles(final(self), old(state), final(state), error, r),
    ;

    /// Handles an error of a step, together with any kernels this one chains to.
    fn handle_error_chain(&mut self, state: &mut ForthState, error: Error) -> (r: ForthResult)
        requires old(self).inv(), old(state).wf(),
        ensures final(self).inv(), final(state).wf(),
            final(state).config == old(state).config,
            kept_output(&old(state).output_stream, &final(state).output_stream),
            old(self).handles_chain(final(self), old(state), final(state), error, r),
    ;
}

/// The kernel that adds nothing and handles no error.
pub struct DefaultKernel();

impl Kernel for DefaultKernel {
    open spec fn inv(&self) -> bool {
        true
    }

    /// Making it leaves the machine as it was.
    open spec fn initialized(&self, old_state: &ForthState, new_state: &ForthState) -> bool {
        *new_state == *old_state
    }

    open spec fn evaluates_chain(&self, new: &Self, old_state: &ForthState, new_state: &ForthState, r: ForthResult) -> bool {
        r is Ok && *new_state == *old_state
    }

    open spec fn handles(&self, new: &Self, old_state: &ForthState, new_state: &ForthState, error: Error, r: ForthResult) -> bool {
        r == Err::<(), Error>(error) && *new_state == *old_state
    }

    open spec fn handles_chain(
        &self,
        new: &Self,
        old_state: &ForthState,
        new_state: &ForthState,
        error: Error,
        r: ForthResult,
    ) -> bool {
        r == Err::<(), Error>(error) && *new_state == *old_state
    }

    fn new(state: &mut ForthState) -> (r: Self) {
        DefaultKernel()
    }

    fn evaluate(&mut self, state: &mut ForthState) -> (r: ForthResult)
        ensures r is Ok, *final(state) == *old(state),
    {
        Ok(())
    }

    fn evaluate_chain(&mut self, state: &mut ForthState) -> (r: ForthResult) {
        Ok(())
    }

    fn handle_error(&mut self, state: &mut ForthState, error: Error) -> (r: ForthResult)
        ensures r == Err::<(), Error>(error), *final(state) == *old(state),
    {
        Err(error)
    }

    fn handle_error_chain(&mut self, state: &mut ForthState, error: Error) -> (r: ForthResult) {
        Err(error)
    }
}

} // verus!
