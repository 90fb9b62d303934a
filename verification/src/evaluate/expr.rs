use crate::ast::SpannedExpression;
use crate::errors::{ErrV, ShellError};
use crate::evaluate::evaluation_context::EvaluationContext;
use crate::evaluate::evaluator::{eval_expr, evaluate_baseline_expr};
use crate::scope::{capture_of, Scope};
use crate::stream::{StreamM, ValueStream};
use crate::value::{val_view, ValV};
use vstd::prelude::*;

verus! {

/// Evaluates one expression and hands its value on as a one-element
/// stream.
pub fn run_expression_block(
    expr: &SpannedExpression,
    ctx: &EvaluationContext,
    scope: &Scope,
) -> (r: Result<ValueStream, ShellError>)
    ensures
        match r {
            Ok(s) => s.wf() && (eval_expr(expr@, scope@, capture_of(*scope)) matches Ok(v)
                && s.model() == StreamM::Fin(seq![v])),
            Err(e) => eval_expr(expr@, scope@, capture_of(*scope)) == Err::<ValV, ErrV>(e@),
        },
{
    match evaluate_baseline_expr(expr, ctx, scope) {
        Ok(output) => Ok(ValueStream::once(output)),
        Err(e) => Err(e),
    }
}

} // verus!
