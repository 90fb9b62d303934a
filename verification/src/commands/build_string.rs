use crate::command::CommandArgs;
use crate::errors::{ErrV, ShellError};
use crate::evaluate::evaluate_args::eval_args_spec;
use crate::scope::{capture_of, Scope};
use crate::stream::{StreamM, ValueStream};
use crate::value::{spec_as_string, UntaggedValue, ValV};
use vstd::prelude::*;
use vstd::string::StringExecFns;

verus! {

/// The string-building command: renders its first two arguments to text
/// and concatenates them, without a separator.
pub struct BuildString;

/// How the command comes out: the built text, a hard failure from argument
/// evaluation, or arguments that are missing or have no text form (with the
/// exact error reported).
pub enum BuildStringOutcome {
    Built(Seq<char>),
    Fail(ErrV),
    BadShape(ErrV),
}

pub open spec fn build_string_spec(
    call: crate::call_info::CallV,
    env: Seq<Map<Seq<char>, ValV>>,
    cap: Seq<(Seq<char>, ValV)>,
    name_span: crate::tag::Span,
) -> BuildStringOutcome {
    match eval_args_spec(call, env, cap) {
        Err(e) => BuildStringOutcome::Fail(e),
        Ok(ea) => match crate::call_info::spec_nth(ea, 0) {
            None => BuildStringOutcome::BadShape(
                crate::errors::labeled_err("Expected a value"@, "expected a value"@, name_span),
            ),
            Some(a) => match spec_as_string(a) {
                None => BuildStringOutcome::BadShape(
                    crate::errors::labeled_err(
                        "Expected a string from pipeline"@,
                        "requires string input"@,
                        crate::call_info::shape_span(ea, call, 0, name_span),
                    ),
                ),
                Some(sa) => match crate::call_info::spec_nth(ea, 1) {
                    None => BuildStringOutcome::BadShape(
                        crate::errors::labeled_err(
                            "Expected a value"@,
                            "expected a value"@,
                            name_span,
                        ),
                    ),
                    Some(b) => match spec_as_string(b) {
                        None => BuildStringOutcome::BadShape(
                            crate::errors::labeled_err(
                                "Expected a string from pipeline"@,
                                "requires string input"@,
                                crate::call_info::shape_span(ea, call, 1, name_span),
                            ),
                        ),
                        Some(sb) => BuildStringOutcome::Built(sa + sb),
                    },
                },
            },
        },
    }
}

impl BuildString {
    pub fn name(&self) -> (r: &'static str)
        ensures
            r@ == "build-string"@,
    {
        "build-string"
    }

    pub fn usage(&self) -> &'static str {
        "Builds a string from the arguments."
    }

    pub fn run(&self, args: CommandArgs, scope: &Scope) -> (r: Result<ValueStream, ShellError>)
        ensures
            match build_string_spec(
                args.call_info.args@,
                scope@,
                capture_of(*scope),
                args.call_info.name_tag.span,
            ) {
                BuildStringOutcome::Built(s) => r matches Ok(out) && out.wf() && out.model()
                    == StreamM::Fin(seq![ValV::Str(s)]) && (out matches ValueStream::Source {
                    items,
                    pos,
                } && pos == 0 && items@.len() == 1 && items@[0].tag@
                    == args.call_info.name_tag@),
                BuildStringOutcome::Fail(e) => r matches Err(re) && re@ == e,
                BuildStringOutcome::BadShape(e) => r matches Err(re) && re@ == e,
            },
    {
        let tag = args.call_info.name_tag.duplicate();
        let evaluated = match args.evaluate_once(&*scope) {
            Ok(ev) => ev,
            Err(e) => {
                return Err(e);
            },
        };
        let (_input, eargs) = evaluated.split();
        let first = match eargs.nth(0) {
            Some(v) => v,
            None => {
                return Err(
                    ShellError::labeled_error("Expected a value", "expected a value", tag.span),
                );
            },
        };
        let sa = match first.as_string() {
            Ok(s) => s,
            Err(e) => {
                return Err(e);
            },
        };
        let second = match eargs.nth(1) {
            Some(v) => v,
            None => {
                return Err(
                    ShellError::labeled_error("Expected a value", "expected a value", tag.span),
                );
            },
        };
        let sb = match second.as_string() {
            Ok(s) => s,
            Err(e) => {
                return Err(e);
            },
        };
        let built = sa.concat(sb.as_str());
        Ok(ValueStream::once(UntaggedValue::Str(built).into_value(tag)))
    }
}

} // verus!
