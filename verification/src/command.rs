use crate::call_info::{CallInfo, EvaluatedArgsV, UnevaluatedCallInfo};
use crate::errors::{ErrV, ShellError};
use crate::evaluate::evaluate_args::eval_args_spec;
use crate::evaluate::evaluation_context::EvaluationContext;
use crate::scope::{capture_of, Scope};
use crate::shared::{ErrorSink, InterruptHandle};
use crate::stream::ValueStream;
use crate::tag::Tag;
use crate::value::{val_view, ValV, Value};
use vstd::prelude::*;

verus! {

/// Everything a command invocation needs before its input is attached.
pub struct RawCommandArgs {
    pub ctrl_c: InterruptHandle,
    pub current_errors: ErrorSink,
    pub scope: Scope,
    pub call_info: UnevaluatedCallInfo,
}

impl RawCommandArgs {
    /// Attaches the input stream, making the invocation runnable.
    pub fn with_input(self, input: ValueStream) -> (r: CommandArgs)
        ensures
            r.call_info.args@ == self.call_info.args@,
            r.call_info.name_tag@ == self.call_info.name_tag@,
            r.input == input,
    {
        CommandArgs {
            ctrl_c: self.ctrl_c,
            current_errors: self.current_errors,
            call_info: self.call_info,
            input,
        }
    }
}

/// The bundle handed to a command: the shared cancellation signal, the
/// shared error sink, the unevaluated call record, and the upstream.
pub struct CommandArgs {
    pub ctrl_c: InterruptHandle,
    pub current_errors: ErrorSink,
    pub call_info: UnevaluatedCallInfo,
    pub input: ValueStream,
}

impl CommandArgs {
    /// Evaluates the call's arguments exactly once, consuming the
    /// unevaluated record.
    pub fn evaluate_once(self, scope: &Scope) -> (r: Result<
        EvaluatedWholeStreamCommandArgs,
        ShellError,
    >)
        ensures
            match r {
                Ok(ev) => eval_args_spec(self.call_info.args@, scope@, capture_of(*scope)) == Ok::<
                    EvaluatedArgsV,
                    ErrV,
                >(ev.args.call_info.args@) && ev.args.call_info.name_tag@
                    == self.call_info.name_tag@ && ev.input == self.input && ev.args.ctrl_c
                    == self.ctrl_c && crate::call_info::tags_ok(
                    ev.args.call_info.args,
                    self.call_info.args@,
                ),
                Err(e) => eval_args_spec(self.call_info.args@, scope@, capture_of(*scope)) == Err::<
                    EvaluatedArgsV,
                    ErrV,
                >(e@),
            },
    {
        let ctx = EvaluationContext {
            current_errors: self.current_errors,
            ctrl_c: self.ctrl_c.share(),
        };
        let ctrl_c = self.ctrl_c;
        let input = self.input;
        let call_info = match self.call_info.evaluate(&ctx, scope) {
            Ok(ci) => ci,
            Err(e) => {
                return Err(e);
            },
        };
        Ok(EvaluatedWholeStreamCommandArgs::new(ctrl_c, call_info, input))
    }
}

/// An invocation whose arguments are already concrete values, still
/// carrying its input stream.
pub struct EvaluatedWholeStreamCommandArgs {
    pub args: EvaluatedCommandArgs,
    pub input: ValueStream,
}

impl EvaluatedWholeStreamCommandArgs {
    pub fn new(ctrl_c: InterruptHandle, call_info: CallInfo, input: ValueStream) -> (r:
        EvaluatedWholeStreamCommandArgs)
        ensures
            r.args.call_info == call_info,
            r.args.ctrl_c == ctrl_c,
            r.input == input,
    {
        EvaluatedWholeStreamCommandArgs { args: EvaluatedCommandArgs { ctrl_c, call_info }, input }
    }

    /// The tag of the invocation itself.
    pub fn name_tag(&self) -> (r: Tag)
        ensures
            r@ == self.args.call_info.name_tag@,
    {
        self.args.call_info.name_tag.duplicate()
    }

    /// Splits into the input stream and the evaluated arguments.
    pub fn parts(self) -> (r: (ValueStream, crate::call_info::EvaluatedArgs))
        ensures
            r.0 == self.input,
            r.1 == self.args.call_info.args,
    {
        let EvaluatedWholeStreamCommandArgs { args, input } = self;
        (input, args.call_info.args)
    }

    /// Splits into the input stream and the argument accessors.
    pub fn split(self) -> (r: (ValueStream, EvaluatedCommandArgs))
        ensures
            r.0 == self.input,
            r.1 == self.args,
    {
        let EvaluatedWholeStreamCommandArgs { args, input } = self;
        (input, args)
    }
}

/// The evaluated arguments of an invocation, with positional and named
/// accessors.
pub struct EvaluatedCommandArgs {
    pub ctrl_c: InterruptHandle,
    pub call_info: CallInfo,
}

impl EvaluatedCommandArgs {
    /// The positional argument at `pos`.
    pub fn nth(&self, pos: usize) -> (r: Option<&Value>)
        ensures
            match r {
                Some(v) => crate::call_info::spec_nth(self.call_info.args@, pos as int) == Some(
                    val_view(*v),
                ) && (self.call_info.args.positional matches Some(vs) && pos < vs@.len() && *v
                    == vs@[pos as int]),
                None => crate::call_info::spec_nth(self.call_info.args@, pos as int) is None,
            },
    {
        self.call_info.args.nth(pos)
    }

    /// The positional argument at `pos`, or a positioned error.
    pub fn expect_nth(&self, pos: usize) -> (r: Result<&Value, ShellError>)
        ensures
            match r {
                Ok(v) => crate::call_info::spec_nth(self.call_info.args@, pos as int) == Some(
                    val_view(*v),
                ),
                Err(e) => crate::call_info::spec_nth(self.call_info.args@, pos as int) is None && e@
                    == (ErrV::Unimplemented { reason: "Better error: expect_nth"@ }),
            },
    {
        match self.call_info.args.nth(pos) {
            Some(v) => Ok(v),
            None => Err(ShellError::unimplemented("Better error: expect_nth")),
        }
    }

    /// The named argument bound under `name`.
    pub fn get(&self, name: &str) -> (r: Option<&Value>)
        ensures
            match r {
                Some(v) => crate::call_info::spec_get(self.call_info.args@, name@) == Some(
                    val_view(*v),
                ),
                None => crate::call_info::spec_get(self.call_info.args@, name@) is None,
            },
    {
        self.call_info.args.get(name)
    }

    /// Whether a named argument or switch is present under `name`.
    pub fn has(&self, name: &str) -> (r: bool)
        ensures
            r == (crate::call_info::spec_get(self.call_info.args@, name@) is Some),
    {
        self.call_info.args.has(name)
    }
}

} // verus!
