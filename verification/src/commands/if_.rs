use crate::command::CommandArgs;
use crate::errors::{labeled_err, ErrV, ShellError};
use crate::evaluate::block::{
    block_arg, cap_entered, env_entered, run_block, run_block_spec, single_condition,
};
use crate::evaluate::evaluation_context::EvaluationContext;
use crate::evaluate::evaluate_args::eval_args_spec;
use crate::evaluate::evaluator::{eval_expr, evaluate_baseline_expr};
use crate::scope::{capture_of, Scope};
use crate::stream::{StreamM, ValueStream};
use crate::tag::Span;
use crate::value::{BlockValV, UntaggedValue, ValV, Value};
use vstd::prelude::*;

verus! {

/// The conditional command: its three block arguments are the condition,
/// the branch taken on true, and the branch taken on false.
pub struct If;

/// What the conditional yields once its three blocks are in hand. A
/// condition block that is not exactly one expression is a hard error; a
/// condition that fails to evaluate, or evaluates to anything but a
/// boolean, becomes a single `Error` element; otherwise exactly one of the
/// two branches runs, in a scope seeded with the condition block's captured
/// bindings.
pub open spec fn if_spec(
    cond: BlockValV,
    then_case: BlockValV,
    else_case: BlockValV,
    env: Seq<Map<Seq<char>, ValV>>,
    cap: Seq<(Seq<char>, ValV)>,
    name_span: Span,
) -> Result<Seq<ValV>, ErrV> {
    match single_condition(cond.block) {
        None => Err(labeled_err("Expected a condition"@, "expected a condition"@, name_span)),
        Some(ce) => {
            let env2 = env_entered(env, cond.captured);
            let cap2 = cap_entered(cap, cond.captured);
            match eval_expr(ce, env2, cap2) {
                Err(e) => Ok(seq![ValV::Error(e)]),
                Ok(cv) => match cv {
                    ValV::Bool(b) => run_block_spec(
                        if b {
                            then_case.block
                        } else {
                            else_case.block
                        },
                        env2,
                        cap2,
                    ),
                    _ => Ok(
                        seq![
                            ValV::Error(
                                labeled_err(
                                    "Expected a boolean value"@,
                                    "expected a boolean"@,
                                    ce.span,
                                ),
                            ),
                        ],
                    ),
                },
            }
        },
    }
}

impl If {
    pub fn name(&self) -> (r: &'static str)
        ensures
            r@ == "if"@,
    {
        "if"
    }

    pub fn usage(&self) -> &'static str {
        "Run blocks if a condition is true or false."
    }

    pub fn run(&self, args: CommandArgs, scope: &mut Scope) -> (r: Result<
        ValueStream,
        ShellError,
    >)
        requires
            old(scope).depth() > 0,
            args.input.wf(),
        ensures
            final(scope).frames@ == old(scope).frames@,
            ({
                let outcome = if_command_spec(
                    args.call_info.args@,
                    old(scope)@,
                    capture_of(*old(scope)),
                    args.call_info.name_tag.span,
                );
                match outcome {
                    IfOutcome::Output(vs) => r matches Ok(s) && s.wf() && s.model()
                        == StreamM::Fin(vs),
                    IfOutcome::Fail(e) => r matches Err(re) && re@ == e,
                    IfOutcome::BadShape(sp) => r matches Err(re) && re@ == labeled_err(
                        "Expected a block"@,
                        "expected a block"@,
                        sp,
                    ),
                }
            }),
    {
        if_command(args, scope)
    }
}

/// The three ways the conditional can come out: a produced output
/// sequence, a hard failure, or a call whose three arguments were not all
/// blocks (with the span the malformed argument is reported at).
pub enum IfOutcome {
    Output(Seq<ValV>),
    Fail(ErrV),
    BadShape(Span),
}

/// The whole conditional, from the unevaluated call on: argument evaluation
/// may fail, the three arguments must all be blocks (the first that is not
/// is reported at its own span), and then `if_spec` decides.
pub open spec fn if_command_spec(
    call: crate::call_info::CallV,
    env: Seq<Map<Seq<char>, ValV>>,
    cap: Seq<(Seq<char>, ValV)>,
    name_span: Span,
) -> IfOutcome {
    match eval_args_spec(call, env, cap) {
        Err(e) => IfOutcome::Fail(e),
        Ok(ea) => if block_arg(ea, 0) is None {
            IfOutcome::BadShape(crate::call_info::shape_span(ea, call, 0, name_span))
        } else if block_arg(ea, 1) is None {
            IfOutcome::BadShape(crate::call_info::shape_span(ea, call, 1, name_span))
        } else if block_arg(ea, 2) is None {
            IfOutcome::BadShape(crate::call_info::shape_span(ea, call, 2, name_span))
        } else {
            match if_spec(
                block_arg(ea, 0)->0,
                block_arg(ea, 1)->0,
                block_arg(ea, 2)->0,
                env,
                cap,
                name_span,
            ) {
                Ok(vs) => IfOutcome::Output(vs),
                Err(e) => IfOutcome::Fail(e),
            }
        },
    }
}

fn if_command(raw_args: CommandArgs, scope: &mut Scope) -> (r: Result<ValueStream, ShellError>)
    requires
        old(scope).depth() > 0,
        raw_args.input.wf(),
    ensures
        final(scope).frames@ == old(scope).frames@,
        ({
            let outcome = if_command_spec(
                raw_args.call_info.args@,
                old(scope)@,
                capture_of(*old(scope)),
                raw_args.call_info.name_tag.span,
            );
            match outcome {
                IfOutcome::Output(vs) => r matches Ok(s) && s.wf() && s.model() == StreamM::Fin(
                    vs,
                ),
                IfOutcome::Fail(e) => r matches Err(re) && re@ == e,
                IfOutcome::BadShape(sp) => r matches Err(re) && re@ == labeled_err(
                    "Expected a block"@,
                    "expected a block"@,
                    sp,
                ),
            }
        }),
{
    let name_span = raw_args.call_info.name_tag.span;
    let ctx = EvaluationContext::from_args(&raw_args);
    let evaluated = match raw_args.evaluate_once(&*scope) {
        Ok(ev) => ev,
        Err(e) => {
            return Err(e);
        },
    };
    let ghost call = raw_args.call_info.args@;
    let (input, args) = evaluated.split();
    let condition = match crate::evaluate::block::expect_block_arg(&args, 0, name_span, Ghost(call)) {
        Ok(cb) => cb,
        Err(e) => {
            return Err(e);
        },
    };
    let then_case = match crate::evaluate::block::expect_block_arg(&args, 1, name_span, Ghost(call)) {
        Ok(cb) => cb,
        Err(e) => {
            return Err(e);
        },
    };
    let else_case = match crate::evaluate::block::expect_block_arg(&args, 2, name_span, Ghost(call)) {
        Ok(cb) => cb,
        Err(e) => {
            return Err(e);
        },
    };
    let cond_ok: bool = condition.block.body.len() == 1 && condition.block.body[0].list.len() == 1;
    proof {
        let bv = crate::value::capblock_view(*condition).block;
        assert(bv.body.len() == condition.block.body@.len());
        if condition.block.body@.len() == 1 {
            assert(bv.body[0] == crate::ast::pipeline_view(condition.block.body@[0]));
            if condition.block.body@[0].list@.len() == 1 {
                assert(bv.body[0].list[0] == crate::ast::spanned_expr_view(
                    condition.block.body@[0].list@[0],
                ));
            }
        }
    }
    if !cond_ok {
        return Err(
            ShellError::labeled_error("Expected a condition", "expected a condition", name_span),
        );
    }
    let cond_expr = &condition.block.body[0].list[0];
    scope.enter_scope();
    scope.add_vars(&condition.captured);
    proof {
        assert(scope@ =~= env_entered(old(scope)@, crate::value::capblock_view(*condition).captured));
        assert(capture_of(*scope) =~= cap_entered(
            capture_of(*old(scope)),
            crate::value::capblock_view(*condition).captured,
        ));
    }
    let cond_result = evaluate_baseline_expr(cond_expr, &ctx, &*scope);
    match cond_result {
        Err(e) => {
            scope.exit_scope();
            proof {
                assert(scope.frames@ =~= old(scope).frames@);
            }
            let out = ValueStream::once(UntaggedValue::Error(e).into_untagged_value());
            Ok(out)
        },
        Ok(cv) => {
            match cv.as_bool() {
                Err(e) => {
                    scope.exit_scope();
                    proof {
                        assert(scope.frames@ =~= old(scope).frames@);
                    }
                    let out = ValueStream::once(UntaggedValue::Error(e).into_untagged_value());
                    Ok(out)
                },
                Ok(b) => {
                    let result = if b {
                        run_block(&then_case.block, &ctx, &*scope, input)
                    } else {
                        run_block(&else_case.block, &ctx, &*scope, input)
                    };
                    scope.exit_scope();
                    proof {
                        assert(scope.frames@ =~= old(scope).frames@);
                    }
                    result
                },
            }
        },
    }
}

} // verus!
