use crate::errors::ShellError;
use crate::shared::{ErrorSink, InterruptHandle};
use vstd::prelude::*;

verus! {

/// The shared state an evaluation carries: the cancellation signal and the
/// append-only sink for out-of-band diagnostics. Cloning the context clones
/// the handles, never the underlying cells, so every holder observes the
/// same state.
pub struct EvaluationContext {
    pub current_errors: ErrorSink,
    pub ctrl_c: InterruptHandle,
}

impl EvaluationContext {
    /// A fresh context with an unset signal and an empty sink.
    pub fn basic() -> EvaluationContext {
        EvaluationContext { current_errors: ErrorSink::new(), ctrl_c: InterruptHandle::new() }
    }

    /// A context sharing an invocation's signal and sink handles.
    pub fn from_args(args: &crate::command::CommandArgs) -> EvaluationContext {
        EvaluationContext {
            current_errors: args.current_errors.share(),
            ctrl_c: args.ctrl_c.share(),
        }
    }

    /// A new pair of handles to the same cells.
    pub fn share(&self) -> EvaluationContext {
        EvaluationContext {
            current_errors: self.current_errors.share(),
            ctrl_c: self.ctrl_c.share(),
        }
    }

    /// Records one out-of-band error.
    pub fn error(&self, error: ShellError) {
        self.current_errors.push(error)
    }

    /// Empties the error sink.
    pub fn clear_errors(&self) {
        self.current_errors.clear()
    }

    /// A snapshot of the accumulated errors.
    pub fn get_errors(&self) -> Vec<ShellError> {
        self.current_errors.snapshot()
    }
}

} // verus!
