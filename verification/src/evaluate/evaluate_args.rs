use crate::call_info::{Call, CallV, EvaluatedArgs, EvaluatedArgsV, NamedValue, NamedValueV};
use crate::errors::{ErrV, ShellError};
use crate::evaluate::evaluation_context::EvaluationContext;
use crate::evaluate::evaluator::{eval_expr, evaluate_baseline_expr};
use crate::scope::{capture_of, Scope};
use crate::tag::{Tag, TagV};
use crate::value::{entries_view, tbl_view, val_view, UntaggedValue, ValV, Value};
use vstd::prelude::*;

verus! {

/// The positional argument expressions evaluated left to right; the first
/// failure propagates and nothing after it is evaluated.
pub open spec fn eval_positional_spec(
    es: Seq<crate::ast::SpannedExprV>,
    env: Seq<Map<Seq<char>, ValV>>,
    cap: Seq<(Seq<char>, ValV)>,
) -> Result<Seq<ValV>, ErrV>
    decreases es.len(),
{
    if es.len() == 0 {
        Ok(Seq::empty())
    } else {
        match eval_expr(es[0], env, cap) {
            Err(e) => Err(e),
            Ok(v) => match eval_positional_spec(es.drop_first(), env, cap) {
                Err(e) => Err(e),
                Ok(rest) => Ok(seq![v] + rest),
            },
        }
    }
}

/// The named entries evaluated in order: a present switch yields the
/// boolean true, a named value is evaluated like a positional, and an
/// absent switch contributes nothing.
pub open spec fn eval_named_spec(
    ns: Seq<(Seq<char>, NamedValueV)>,
    env: Seq<Map<Seq<char>, ValV>>,
    cap: Seq<(Seq<char>, ValV)>,
) -> Result<Seq<(Seq<char>, ValV)>, ErrV>
    decreases ns.len(),
{
    if ns.len() == 0 {
        Ok(Seq::empty())
    } else {
        let head: Result<Option<ValV>, ErrV> = match ns[0].1 {
            NamedValueV::PresentSwitch(_) => Ok(Some(ValV::Bool(true))),
            NamedValueV::AbsentSwitch => Ok(None),
            NamedValueV::Value(_, e) => match eval_expr(e, env, cap) {
                Ok(v) => Ok(Some(v)),
                Err(err) => Err(err),
            },
        };
        match head {
            Err(e) => Err(e),
            Ok(hv) => match eval_named_spec(ns.drop_first(), env, cap) {
                Err(e) => Err(e),
                Ok(rest) => match hv {
                    Some(v) => Ok(seq![(ns[0].0, v)] + rest),
                    None => Ok(rest),
                },
            },
        }
    }
}

/// What evaluating a whole call's arguments gives: positionals first, then
/// named entries; an empty evaluated group becomes `None`, so that a caller
/// can tell "no arguments supplied" apart from data.
pub open spec fn eval_args_spec(
    c: CallV,
    env: Seq<Map<Seq<char>, ValV>>,
    cap: Seq<(Seq<char>, ValV)>,
) -> Result<EvaluatedArgsV, ErrV> {
    let pos: Result<Option<Seq<ValV>>, ErrV> = match c.positional {
        None => Ok(None),
        Some(es) => match eval_positional_spec(es, env, cap) {
            Err(e) => Err(e),
            Ok(vs) => Ok(
                if vs.len() == 0 {
                    None
                } else {
                    Some(vs)
                },
            ),
        },
    };
    match pos {
        Err(e) => Err(e),
        Ok(p) => {
            let named: Result<Option<Seq<(Seq<char>, ValV)>>, ErrV> = match c.named {
                None => Ok(None),
                Some(ns) => match eval_named_spec(ns, env, cap) {
                    Err(e) => Err(e),
                    Ok(vs) => Ok(
                        if vs.len() == 0 {
                            None
                        } else {
                            Some(vs)
                        },
                    ),
                },
            };
            match named {
                Err(e) => Err(e),
                Ok(n) => Ok(EvaluatedArgsV { positional: p, named: n }),
            }
        },
    }
}

/// Evaluates a call's arguments against the given scope: each positional
/// expression in order, short-circuiting on the first failure, then the
/// named entries. Every produced value carries the span of the expression
/// (or switch) it came from.
#[verifier::loop_isolation(false)]
pub fn evaluate_args(call: &Call, ctx: &EvaluationContext, scope: &Scope) -> (r: Result<
    EvaluatedArgs,
    ShellError,
>)
    ensures
        match r {
            Ok(ea) => eval_args_spec(call@, scope@, capture_of(*scope)) == Ok::<
                EvaluatedArgsV,
                ErrV,
            >(ea@) && crate::call_info::tags_ok(ea, call@),
            Err(e) => eval_args_spec(call@, scope@, capture_of(*scope)) == Err::<
                EvaluatedArgsV,
                ErrV,
            >(e@),
        },
{
    let ghost env = scope@;
    let ghost cap = capture_of(*scope);
    let positional: Option<Vec<Value>> = match &call.positional {
        None => None,
        Some(es) => {
            let ghost esv = call@.positional->0;
            let mut vals: Vec<Value> = Vec::new();
            let mut i: usize = 0;
            proof {
                assert(esv.skip(0) =~= esv);
                assert(tbl_view(vals@) =~= Seq::<ValV>::empty());
            }
            while i < es.len()
                invariant
                    0 <= i <= es@.len(),
                    esv == call@.positional->0,
                    esv.len() == es@.len(),
                    env == scope@,
                    cap == capture_of(*scope),
                    forall|j: int| 0 <= j < i ==> esv[j] == es@[j]@,
                    vals@.len() == i,
                    forall|j: int|
                        0 <= j < i ==> (#[trigger] vals@[j]).tag@ == (TagV {
                            span: esv[j].span,
                            anchor: None::<Seq<char>>,
                        }),
                    eval_positional_spec(esv, env, cap) == match eval_positional_spec(
                        esv.skip(i as int),
                        env,
                        cap,
                    ) {
                        Err(e) => Err::<Seq<ValV>, ErrV>(e),
                        Ok(rest) => Ok(tbl_view(vals@) + rest),
                    },
                decreases es@.len() - i,
            {
                proof {
                    assert(call@.positional == Some(esv));
                    assert(esv[i as int] == crate::ast::spanned_expr_view(es@[i as int]));
                    assert(esv[i as int] == es@[i as int]@);
                    assert(esv.skip(i as int)[0] == esv[i as int]);
                    assert(esv.skip(i as int).drop_first() =~= esv.skip(i + 1));
                }
                match evaluate_baseline_expr(&es[i], ctx, scope) {
                    Ok(v) => {
                        let ghost before = tbl_view(vals@);
                        let ghost vv = val_view(v);
                        vals.push(v);
                        proof {
                            assert(tbl_view(vals@) =~= before.push(vv));
                            match eval_positional_spec(esv.skip(i + 1), env, cap) {
                                Ok(rr) => {
                                    assert(before.push(vv) + rr =~= before + (seq![vv] + rr));
                                },
                                Err(_) => {},
                            }
                        }
                    },
                    Err(e) => {
                        proof {
                            assert(esv[i as int].span == es@[i as int]@.span);
                            assert(eval_positional_spec(esv, env, cap) == Err::<Seq<ValV>, ErrV>(
                                e@,
                            ));
                            assert(eval_args_spec(call@, env, cap) == Err::<EvaluatedArgsV, ErrV>(
                                e@,
                            ));
                        }
                        return Err(e);
                    },
                }
                i = i + 1;
            }
            proof {
                assert(esv.skip(es@.len() as int) =~= Seq::<crate::ast::SpannedExprV>::empty());
                assert(tbl_view(vals@) + Seq::<ValV>::empty() =~= tbl_view(vals@));
            }
            if vals.len() == 0 {
                None
            } else {
                Some(vals)
            }
        },
    };
    let named: Option<Vec<(String, Value)>> = match &call.named {
        None => None,
        Some(ns) => {
            let ghost nsv = call@.named->0;
            let mut vals: Vec<(String, Value)> = Vec::new();
            let mut i: usize = 0;
            proof {
                assert(nsv.skip(0) =~= nsv);
                assert(nsv.take(0) =~= Seq::<(Seq<char>, NamedValueV)>::empty());
                assert(entries_view(vals@) =~= Seq::<(Seq<char>, ValV)>::empty());
            }
            while i < ns.len()
                invariant
                    0 <= i <= ns@.len(),
                    nsv == call@.named->0,
                    nsv.len() == ns@.len(),
                    env == scope@,
                    cap == capture_of(*scope),
                    forall|j: int|
                        0 <= j < ns@.len() ==> nsv[j] == (
                            ns@[j].0@,
                            crate::call_info::named_value_view(ns@[j].1),
                        ),
                    eval_named_spec(nsv, env, cap) == match eval_named_spec(
                        nsv.skip(i as int),
                        env,
                        cap,
                    ) {
                        Err(e) => Err::<Seq<(Seq<char>, ValV)>, ErrV>(e),
                        Ok(rest) => Ok(entries_view(vals@) + rest),
                    },
                    vals@.len() == crate::call_info::named_spans(nsv.take(i as int)).len(),
                    forall|j: int|
                        0 <= j < vals@.len() ==> (#[trigger] vals@[j]).1.tag@ == (TagV {
                            span: crate::call_info::named_spans(nsv.take(i as int))[j].1,
                            anchor: None::<Seq<char>>,
                        }),
                decreases ns@.len() - i,
            {
                proof {
                    assert(call@.named == Some(nsv));
                    assert(nsv[i as int] == (
                        ns@[i as int].0@,
                        crate::call_info::named_value_view(ns@[i as int].1),
                    ));
                    assert(nsv.skip(i as int)[0] == nsv[i as int]);
                    assert(nsv.skip(i as int).drop_first() =~= nsv.skip(i + 1));
                }
                let name = ns[i].0.clone();
                let produced: Option<Value> = match &ns[i].1 {
                    NamedValue::PresentSwitch(s) => Some(
                        UntaggedValue::Boolean(true).into_value(Tag::from_span(*s)),
                    ),
                    NamedValue::AbsentSwitch => None,
                    NamedValue::Value(_, e) => match evaluate_baseline_expr(e, ctx, scope) {
                        Ok(v) => Some(v),
                        Err(err) => {
                            proof {
                                assert(eval_named_spec(nsv, env, cap) == Err::<
                                    Seq<(Seq<char>, ValV)>,
                                    ErrV,
                                >(err@));
                                assert(eval_args_spec(call@, env, cap) == Err::<
                                    EvaluatedArgsV,
                                    ErrV,
                                >(err@));
                            }
                            return Err(err);
                        },
                    },
                };
                proof {
                    assert(nsv.take(i + 1).drop_last() =~= nsv.take(i as int));
                    assert(nsv.take(i + 1).last() == nsv[i as int]);
                }
                match produced {
                    Some(v) => {
                        let ghost before = entries_view(vals@);
                        let ghost pair = (name@, val_view(v));
                        vals.push((name, v));
                        proof {
                            assert(entries_view(vals@) =~= before.push(pair));
                            match eval_named_spec(nsv.skip(i + 1), env, cap) {
                                Ok(rr) => {
                                    assert(before.push(pair) + rr =~= before + (seq![pair] + rr));
                                },
                                Err(_) => {},
                            }
                            match nsv[i as int].1 {
                                NamedValueV::PresentSwitch(sp) => {
                                    assert(crate::call_info::named_spans(nsv.take(i + 1))
                                        =~= crate::call_info::named_spans(
                                        nsv.take(i as int),
                                    ).push((nsv[i as int].0, sp)));
                                },
                                NamedValueV::Value(_, e) => {
                                    assert(crate::call_info::named_spans(nsv.take(i + 1))
                                        =~= crate::call_info::named_spans(
                                        nsv.take(i as int),
                                    ).push((nsv[i as int].0, e.span)));
                                },
                                NamedValueV::AbsentSwitch => {},
                            }
                        }
                    },
                    None => {},
                }
                i = i + 1;
            }
            proof {
                assert(nsv.skip(ns@.len() as int) =~= Seq::<(Seq<char>, NamedValueV)>::empty());
                assert(nsv.take(ns@.len() as int) =~= nsv);
                assert(entries_view(vals@) + Seq::<(Seq<char>, ValV)>::empty() =~= entries_view(
                    vals@,
                ));
            }
            if vals.len() == 0 {
                None
            } else {
                Some(vals)
            }
        },
    };
    let result = EvaluatedArgs { positional, named };
    proof {
        assert(eval_args_spec(call@, env, cap) == Ok::<EvaluatedArgsV, ErrV>(result@));
    }
    Ok(result)
}

} // verus!
