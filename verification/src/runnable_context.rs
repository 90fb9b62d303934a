use crate::shared::{ErrorSink, InterruptHandle};
use crate::stream::ValueStream;
use crate::tag::Tag;
use vstd::prelude::*;

verus! {

/// What a command needs to run: its input, the shared cancellation signal,
/// the shared error sink, and the invocation's tag.
pub struct RunnableContext {
    pub input: ValueStream,
    pub ctrl_c: InterruptHandle,
    pub current_errors: ErrorSink,
    pub name: Tag,
}

} // verus!
