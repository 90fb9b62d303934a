use crate::ast::{ExprV, Expression, LitV, Literal, Operator, SpannedExpression, SpannedExprV};
use crate::errors::{coercion_err, labeled_err, ErrV, ShellError};
use crate::evaluate::evaluation_context::EvaluationContext;
use crate::scope::{capture_of, stack_lookup, Scope};
use crate::tag::{Span, Tag, TagV};
use crate::value::{
    spec_add, spec_compare, spec_kind_name, spec_lt, spec_mul, val_view, BlockValV, CapturedBlock,
    CmpResult, UntaggedValue, ValV, Value,
};
use vstd::prelude::*;

verus! {

/// The value a literal evaluates to.
pub open spec fn lit_val(l: LitV) -> ValV {
    match l {
        LitV::Nothing => ValV::Nothing,
        LitV::Int(i) => ValV::Small(i),
        LitV::Bool(b) => ValV::Bool(b),
        LitV::Text(s) => ValV::Str(s),
    }
}

/// The strict greater-than predicate under the coercion ladder; a mismatch
/// is the `false` sentinel.
pub open spec fn spec_gt(a: ValV, b: ValV) -> bool {
    spec_compare(a, b) == Some(CmpResult::Greater)
}

/// What a binary operator makes of its two evaluated operands. An
/// arithmetic type mismatch is a hard coercion error carrying both operand
/// spans; an ordering mismatch is the `false` sentinel.
pub open spec fn eval_binary(op: Operator, lv: ValV, rv: ValV, lspan: Span, rspan: Span) -> Result<
    ValV,
    ErrV,
> {
    match op {
        Operator::Plus => match spec_add(lv, rv) {
            Some(v) => Ok(v),
            None => Err(coercion_err(spec_kind_name(lv), lspan, spec_kind_name(rv), rspan)),
        },
        Operator::Multiply => match spec_mul(lv, rv) {
            Some(v) => Ok(v),
            None => Err(coercion_err(spec_kind_name(lv), lspan, spec_kind_name(rv), rspan)),
        },
        Operator::GreaterThan => Ok(ValV::Bool(spec_gt(lv, rv))),
        Operator::LessThan => Ok(ValV::Bool(spec_lt(lv, rv))),
        Operator::Equal => Ok(ValV::Bool(lv == rv)),
        Operator::NotEqual => Ok(ValV::Bool(lv != rv)),
    }
}

/// What an expression evaluates to against a scope: `env` is the frame
/// stack used for variable lookup, and `cap` is the scope's capture list,
/// snapshotted into any block literal the expression builds. Operands are
/// evaluated left to right, and the first failure propagates without
/// evaluating further.
pub open spec fn eval_expr(
    e: SpannedExprV,
    env: Seq<Map<Seq<char>, ValV>>,
    cap: Seq<(Seq<char>, ValV)>,
) -> Result<ValV, ErrV>
    decreases e,
{
    match e.expr {
        ExprV::Literal(l) => Ok(lit_val(l)),
        ExprV::Variable(n) => match stack_lookup(env, n) {
            Some(v) => Ok(v),
            None => Err(labeled_err("Variable not in scope"@, "unknown variable"@, e.span)),
        },
        ExprV::Binary(l, op, r) => match eval_expr(*l, env, cap) {
            Err(err) => Err(err),
            Ok(lv) => match eval_expr(*r, env, cap) {
                Err(err) => Err(err),
                Ok(rv) => eval_binary(op, lv, rv, l.span, r.span),
            },
        },
        ExprV::Block(b) => Ok(ValV::Block(BlockValV { block: b, captured: cap })),
    }
}

/// Whether the addition coercion ladder accepts this pairing.
fn ladder_accepts(a: &UntaggedValue, b: &UntaggedValue) -> (r: bool)
    ensures
        r == (spec_add(a@, b@) is Some),
{
    match a {
        UntaggedValue::Error(_) => true,
        UntaggedValue::SmallInt(_) => match b {
            UntaggedValue::SmallInt(_) => true,
            UntaggedValue::BigInt(_) => true,
            UntaggedValue::Error(_) => true,
            _ => false,
        },
        UntaggedValue::BigInt(_) => match b {
            UntaggedValue::SmallInt(_) => true,
            UntaggedValue::BigInt(_) => true,
            UntaggedValue::Error(_) => true,
            _ => false,
        },
        _ => match b {
            UntaggedValue::Error(_) => true,
            _ => false,
        },
    }
}

/// Evaluates one expression against the given scope. The result carries the
/// expression's own span as its tag. This is the whole expression language
/// of the engine: literals, variable references, binary operators and block
/// literals with closure capture.
pub fn evaluate_baseline_expr(
    expr: &SpannedExpression,
    ctx: &EvaluationContext,
    scope: &Scope,
) -> (r: Result<Value, ShellError>)
    ensures
        match r {
            Ok(v) => eval_expr(expr@, scope@, capture_of(*scope)) == Ok::<ValV, ErrV>(val_view(v))
                && v.tag@ == (TagV { span: expr.span, anchor: None::<Seq<char>> }),
            Err(e) => eval_expr(expr@, scope@, capture_of(*scope)) == Err::<ValV, ErrV>(e@),
        },
    decreases *expr,
{
    let tag = Tag::from_span(expr.span);
    match &expr.expr {
        Expression::Literal(l) => {
            let uv = match l {
                Literal::Nothing => UntaggedValue::Nothing,
                Literal::Int(i) => UntaggedValue::SmallInt(*i),
                Literal::Bool(b) => UntaggedValue::Boolean(*b),
                Literal::Text(s) => UntaggedValue::Str(s.clone()),
            };
            Ok(uv.into_value(tag))
        },
        Expression::Variable(n) => match scope.get_var(n) {
            Some(v) => Ok(Value { value: v.value, tag }),
            None => Err(
                ShellError::labeled_error("Variable not in scope", "unknown variable", expr.span),
            ),
        },
        Expression::Binary(l, op, r) => {
            let lv = match evaluate_baseline_expr(&**l, ctx, scope) {
                Ok(v) => v,
                Err(e) => {
                    return Err(e);
                },
            };
            let rv = match evaluate_baseline_expr(&**r, ctx, scope) {
                Ok(v) => v,
                Err(e) => {
                    return Err(e);
                },
            };
            match op {
                Operator::Plus => {
                    if ladder_accepts(&lv.value, &rv.value) {
                        let sum = lv.add(&rv);
                        Ok(Value { value: sum.value, tag })
                    } else {
                        Err(
                            ShellError::coerce_error(
                                lv.value.kind_name(),
                                lv.tag.span,
                                rv.value.kind_name(),
                                rv.tag.span,
                            ),
                        )
                    }
                },
                Operator::Multiply => {
                    if ladder_accepts(&lv.value, &rv.value) {
                        let product = lv.mul(&rv);
                        Ok(Value { value: product.value, tag })
                    } else {
                        Err(
                            ShellError::coerce_error(
                                lv.value.kind_name(),
                                lv.tag.span,
                                rv.value.kind_name(),
                                rv.tag.span,
                            ),
                        )
                    }
                },
                Operator::GreaterThan => {
                    let b = match lv.compare_order(&rv) {
                        Some(CmpResult::Greater) => true,
                        _ => false,
                    };
                    Ok(UntaggedValue::Boolean(b).into_value(tag))
                },
                Operator::LessThan => {
                    let b = lv.lt(&rv);
                    Ok(UntaggedValue::Boolean(b).into_value(tag))
                },
                Operator::Equal => {
                    let b = lv.same_value(&rv);
                    Ok(UntaggedValue::Boolean(b).into_value(tag))
                },
                Operator::NotEqual => {
                    let b = !lv.same_value(&rv);
                    Ok(UntaggedValue::Boolean(b).into_value(tag))
                },
            }
        },
        Expression::Block(b) => {
            let cb = CapturedBlock { block: b.duplicate(), captured: scope.capture_vars() };
            Ok(UntaggedValue::Block(Box::new(cb)).into_value(tag))
        },
    }
}

} // verus!
