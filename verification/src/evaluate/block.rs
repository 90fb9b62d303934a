use crate::ast::{BlockDef, PipelineV};
use crate::errors::{labeled_err, ErrV, ShellError};
use crate::evaluate::evaluation_context::EvaluationContext;
use crate::evaluate::evaluator::{eval_expr, evaluate_baseline_expr};
use crate::scope::{capture_of, Scope};
use crate::stream::{StreamM, ValueStream};
use crate::tag::Span;
use crate::value::{val_view, ValV, Value};
use vstd::prelude::*;

verus! {

/// The span a malformed pipeline is reported at: its first stage, where it
/// has one.
pub open spec fn pipeline_err_span(p: PipelineV) -> Span {
    if p.list.len() > 0 {
        p.list[0].span
    } else {
        Span { start: 0, end: 0 }
    }
}

/// Running a block body's pipelines in order, each carrying exactly one
/// expression; the last pipeline's value is the block's result. The first
/// evaluation failure, or a pipeline of any other shape, aborts the block.
pub open spec fn run_pipelines_spec(
    ps: Seq<PipelineV>,
    env: Seq<Map<Seq<char>, ValV>>,
    cap: Seq<(Seq<char>, ValV)>,
    last: Option<ValV>,
) -> Result<Option<ValV>, ErrV>
    decreases ps.len(),
{
    if ps.len() == 0 {
        Ok(last)
    } else if ps[0].list.len() != 1 {
        Err(
            labeled_err(
                "Expected a single expression pipeline"@,
                "unsupported pipeline shape"@,
                pipeline_err_span(ps[0]),
            ),
        )
    } else {
        match eval_expr(ps[0].list[0], env, cap) {
            Err(e) => Err(e),
            Ok(v) => run_pipelines_spec(ps.drop_first(), env, cap, Some(v)),
        }
    }
}

/// What running a whole block body gives: the last pipeline's value as a
/// one-element sequence, or nothing for an empty body.
pub open spec fn run_block_spec(
    b: crate::ast::BlockV,
    env: Seq<Map<Seq<char>, ValV>>,
    cap: Seq<(Seq<char>, ValV)>,
) -> Result<Seq<ValV>, ErrV> {
    match run_pipelines_spec(b.body, env, cap, None) {
        Err(e) => Err(e),
        Ok(None) => Ok(Seq::empty()),
        Ok(Some(v)) => Ok(seq![v]),
    }
}

/// The block value at positional argument `pos`, where there is one.
pub open spec fn block_arg(ea: crate::call_info::EvaluatedArgsV, pos: int) -> Option<
    crate::value::BlockValV,
> {
    match crate::call_info::spec_nth(ea, pos) {
        Some(ValV::Block(b)) => Some(b),
        _ => None,
    }
}

/// The single expression of a one-pipeline, one-stage block body, where the
/// body has that shape.
pub open spec fn single_condition(b: crate::ast::BlockV) -> Option<crate::ast::SpannedExprV> {
    if b.body.len() == 1 && b.body[0].list.len() == 1 {
        Some(b.body[0].list[0])
    } else {
        None
    }
}

/// The lookup environment after entering a fresh frame and merging a
/// captured binding list into it.
pub open spec fn env_entered(
    env: Seq<Map<Seq<char>, ValV>>,
    entries: Seq<(Seq<char>, ValV)>,
) -> Seq<Map<Seq<char>, ValV>> {
    env.push(crate::scope::merged(Map::empty(), entries))
}

/// The capture list after entering a fresh frame and merging a captured
/// binding list into it.
pub open spec fn cap_entered(cap: Seq<(Seq<char>, ValV)>, entries: Seq<(Seq<char>, ValV)>) -> Seq<
    (Seq<char>, ValV),
> {
    cap + entries
}

/// Extracts the block at positional `pos`, or reports the malformed
/// argument at its own span (or the invocation's span when it is missing).
pub(crate) fn expect_block_arg(
    args: &crate::command::EvaluatedCommandArgs,
    pos: usize,
    name_span: Span,
    Ghost(call): Ghost<crate::call_info::CallV>,
) -> (r: Result<&crate::value::CapturedBlock, ShellError>)
    requires
        crate::call_info::positional_tags_ok(args.call_info.args, call),
    ensures
        match r {
            Ok(cb) => block_arg(args.call_info.args@, pos as int) == Some(
                crate::value::capblock_view(*cb),
            ),
            Err(e) => block_arg(args.call_info.args@, pos as int) is None && e@
                == labeled_err(
                "Expected a block"@,
                "expected a block"@,
                crate::call_info::shape_span(args.call_info.args@, call, pos as int, name_span),
            ),
        },
{
    match args.nth(pos) {
        Some(v) => match &v.value {
            crate::value::UntaggedValue::Block(b) => Ok(&**b),
            _ => Err(
                ShellError::labeled_error("Expected a block", "expected a block", v.tag.span),
            ),
        },
        None => Err(ShellError::labeled_error("Expected a block", "expected a block", name_span)),
    }
}

/// Runs a block's body against the given scope, handing back the last
/// pipeline's value.
#[verifier::loop_isolation(false)]
pub fn run_block_last(block: &BlockDef, ctx: &EvaluationContext, scope: &Scope) -> (r: Result<
    Option<Value>,
    ShellError,
>)
    ensures
        match r {
            Ok(last) => run_pipelines_spec(block@.body, scope@, capture_of(*scope), None::<ValV>)
                == Ok::<Option<ValV>, ErrV>(
                match last {
                    Some(v) => Some(val_view(v)),
                    None => None,
                },
            ),
            Err(e) => run_pipelines_spec(block@.body, scope@, capture_of(*scope), None::<ValV>)
                == Err::<Option<ValV>, ErrV>(e@),
        },
{
    let ghost env = scope@;
    let ghost cap = capture_of(*scope);
    let ghost bodyv = block@.body;
    let mut last: Option<Value> = None;
    let mut i: usize = 0;
    proof {
        assert(bodyv.skip(0) =~= bodyv);
    }
    while i < block.body.len()
        invariant
            0 <= i <= block.body@.len(),
            run_pipelines_spec(bodyv, env, cap, None::<ValV>) == run_pipelines_spec(
                bodyv.skip(i as int),
                env,
                cap,
                match last {
                    Some(v) => Some(val_view(v)),
                    None => None,
                },
            ),
        decreases block.body@.len() - i,
    {
        let pipeline = &block.body[i];
        proof {
            assert(bodyv[i as int] == crate::ast::pipeline_view(block.body@[i as int]));
            assert(bodyv.skip(i as int)[0] == bodyv[i as int]);
            assert(bodyv.skip(i as int).drop_first() =~= bodyv.skip(i + 1));
        }
        if pipeline.list.len() != 1 {
            let span = if pipeline.list.len() > 0 {
                pipeline.list[0].span
            } else {
                Span::unknown()
            };
            proof {
                if pipeline.list@.len() > 0 {
                    assert(bodyv[i as int].list[0] == crate::ast::spanned_expr_view(
                        pipeline.list@[0],
                    ));
                }
            }
            return Err(
                ShellError::labeled_error(
                    "Expected a single expression pipeline",
                    "unsupported pipeline shape",
                    span,
                ),
            );
        }
        proof {
            assert(bodyv[i as int].list[0] == crate::ast::spanned_expr_view(pipeline.list@[0]));
        }
        match evaluate_baseline_expr(&pipeline.list[0], ctx, scope) {
            Ok(v) => {
                last = Some(v);
            },
            Err(e) => {
                return Err(e);
            },
        }
        i = i + 1;
    }
    proof {
        assert(bodyv.skip(block.body@.len() as int) =~= Seq::<PipelineV>::empty());
    }
    Ok(last)
}

/// Runs a block's body against the given scope: each pipeline's single
/// expression in order, the last value becoming the block's output stream.
/// The input stream is accepted for interface fidelity; expression
/// pipelines do not read it.
pub fn run_block(
    block: &BlockDef,
    ctx: &EvaluationContext,
    scope: &Scope,
    input: ValueStream,
) -> (r: Result<ValueStream, ShellError>)
    ensures
        match r {
            Ok(s) => s.wf() && (run_block_spec(block@, scope@, capture_of(*scope)) matches Ok(out)
                && s.model() == StreamM::Fin(out)),
            Err(e) => run_block_spec(block@, scope@, capture_of(*scope)) == Err::<Seq<ValV>, ErrV>(
                e@,
            ),
        },
{
    match run_block_last(block, ctx, scope) {
        Ok(Some(v)) => Ok(ValueStream::once(v)),
        Ok(None) => Ok(ValueStream::Empty),
        Err(e) => Err(e),
    }
}

} // verus!
