use crate::bigint::big_from_u64;
use crate::command::CommandArgs;
use crate::errors::{ErrV, ShellError};
use crate::evaluate::evaluate_args::eval_args_spec;
use crate::scope::{capture_of, Scope};
use crate::stream::{range_seq, StreamM, ValueStream};
use crate::tag::Span;
use crate::value::{
    num_of, spec_as_string, tbl_view, val_view, RangeV, UntaggedValue, ValV, Value,
};
use vstd::prelude::*;

verus! {

/// The echo command: evaluates its arguments and emits them, flattening a
/// table into its elements, expanding a range into its values, and
/// rendering a primitive with a text form as a string.
pub struct Echo;

/// A range value expanded into its elements: a missing start bound counts
/// from zero, a missing end bound counts to the largest unsigned 64-bit
/// value, and bounds without a numeric reading produce a single positioned
/// range error.
pub open spec fn range_out(rv: RangeV, sp: Span) -> Seq<ValV> {
    let startv = if rv.from is Nothing {
        ValV::Small(0)
    } else {
        rv.from
    };
    let endv = if rv.to is Nothing {
        ValV::Big(0xffffffffffffffff)
    } else {
        rv.to
    };
    match (num_of(startv), num_of(endv)) {
        (Some(c), Some(e)) => range_seq(startv, e, c <= e, rv.to_inclusive),
        _ => seq![
            ValV::Error(
                crate::errors::labeled_err("Cannot create range"@, "unsupported range"@, sp),
            ),
        ],
    }
}

/// What one echoed argument contributes to the output.
pub open spec fn echo_item(v: ValV, sp: Span) -> Seq<ValV> {
    match spec_as_string(v) {
        Some(s) => seq![ValV::Str(s)],
        None => match v {
            ValV::Table(ts) => ts,
            ValV::Range(rv) => range_out(*rv, sp),
            _ => seq![v],
        },
    }
}

/// The concatenated contributions of all echoed arguments, in order.
pub open spec fn echo_items(vs: Seq<ValV>, sps: Seq<Span>) -> Seq<ValV>
    decreases vs.len(),
{
    if vs.len() == 0 {
        Seq::empty()
    } else {
        echo_item(vs[0], sps[0]) + echo_items(vs.drop_first(), sps.drop_first())
    }
}

/// How the echo command comes out: its output sequence, or an argument
/// evaluation failure.
pub enum EchoOutcome {
    Output(Seq<ValV>),
    Fail(ErrV),
}

pub open spec fn echo_command_spec(
    call: crate::call_info::CallV,
    env: Seq<Map<Seq<char>, ValV>>,
    cap: Seq<(Seq<char>, ValV)>,
) -> EchoOutcome {
    match eval_args_spec(call, env, cap) {
        Err(e) => EchoOutcome::Fail(e),
        Ok(ea) => match (ea.positional, call.positional) {
            (Some(vs), Some(es)) => EchoOutcome::Output(
                echo_items(vs, Seq::new(es.len(), |i: int| es[i].span)),
            ),
            _ => EchoOutcome::Output(Seq::empty()),
        },
    }
}

/// The stream one echoed argument expands to.
fn echo_segment(v: Value) -> (r: ValueStream)
    ensures
        r.wf(),
        r.model() == StreamM::Fin(echo_item(val_view(v), v.tag.span)),
{
    let ghost vv = val_view(v);
    let ghost sp = v.tag.span;
    let is_text = match v.as_string() {
        Ok(s) => Some(s),
        Err(_) => None,
    };
    match is_text {
        Some(s) => {
            let out = UntaggedValue::Str(s).into_value(v.tag);
            ValueStream::once(out)
        },
        None => {
            let Value { value, tag } = v;
            match value {
                UntaggedValue::Table(ts) => ValueStream::from_vec(ts),
                UntaggedValue::Range(r) => {
                    let ghost rv = *vv->Range_0;
                    let crate::value::RangeValue { from, from_inclusive, to, to_inclusive } = *r;
                    proof {
                        assert(rv.from == val_view(from));
                        assert(rv.to == val_view(to));
                        assert(rv.to_inclusive == to_inclusive);
                    }
                    let start: Value = if matches!(from.value, UntaggedValue::Nothing) {
                        UntaggedValue::SmallInt(0).into_untagged_value()
                    } else {
                        from
                    };
                    let end: Value = if matches!(to.value, UntaggedValue::Nothing) {
                        UntaggedValue::BigInt(big_from_u64(u64::MAX)).into_untagged_value()
                    } else {
                        to
                    };
                    let moves_up: bool = match start.compare_order(&end) {
                        Some(crate::value::CmpResult::Greater) => false,
                        _ => true,
                    };
                    let stage = ValueStream::RangeIter {
                        curr: start,
                        end,
                        moves_up,
                        end_inclusive: to_inclusive,
                        done: false,
                        tag,
                    };
                    proof {
                        let startv = if rv.from is Nothing {
                            ValV::Small(0)
                        } else {
                            rv.from
                        };
                        let endv = if rv.to is Nothing {
                            ValV::Big(0xffffffffffffffff)
                        } else {
                            rv.to
                        };
                        assert(val_view(stage->RangeIter_curr) == startv);
                        assert(val_view(stage->RangeIter_end) == endv);
                        match (num_of(startv), num_of(endv)) {
                            (Some(c), Some(e)) => {
                                assert(moves_up == (c <= e));
                            },
                            _ => {},
                        }
                        assert(echo_item(vv, sp) == range_out(rv, sp));
                    }
                    stage
                },
                other => ValueStream::once(Value { value: other, tag }),
            }
        },
    }
}

impl Echo {
    pub fn name(&self) -> (r: &'static str)
        ensures
            r@ == "echo"@,
    {
        "echo"
    }

    pub fn usage(&self) -> &'static str {
        "Echo the arguments back to the user."
    }

    pub fn run(&self, args: CommandArgs, scope: &Scope) -> (r: Result<ValueStream, ShellError>)
        ensures
            match echo_command_spec(args.call_info.args@, scope@, capture_of(*scope)) {
                EchoOutcome::Output(vs) => r matches Ok(s) && s.wf() && s.model() == StreamM::Fin(
                    vs,
                ),
                EchoOutcome::Fail(e) => r matches Err(re) && re@ == e,
            },
    {
        echo(args, scope)
    }
}

#[verifier::loop_isolation(false)]
fn echo(raw_args: CommandArgs, scope: &Scope) -> (r: Result<ValueStream, ShellError>)
    ensures
        match echo_command_spec(raw_args.call_info.args@, scope@, capture_of(*scope)) {
            EchoOutcome::Output(vs) => r matches Ok(s) && s.wf() && s.model() == StreamM::Fin(vs),
            EchoOutcome::Fail(e) => r matches Err(re) && re@ == e,
        },
{
    let ghost call = raw_args.call_info.args@;
    let evaluated = match raw_args.evaluate_once(&*scope) {
        Ok(ev) => ev,
        Err(e) => {
            return Err(e);
        },
    };
    let (_input, ea) = evaluated.parts();
    let mut vals: Vec<Value> = match ea.positional {
        Some(vs) => vs,
        None => {
            return Ok(ValueStream::Empty);
        },
    };
    let ghost vsv = tbl_view(vals@);
    let ghost sps = Seq::new(call.positional->0.len(), |i: int| call.positional->0[i].span);
    proof {
        assert(vsv.len() == sps.len());
        assert(vsv.skip(vsv.len() as int) =~= Seq::<ValV>::empty());
        assert(sps.skip(sps.len() as int) =~= Seq::<Span>::empty());
        assert(echo_items(vsv.skip(vsv.len() as int), sps.skip(sps.len() as int)) == Seq::<
            ValV,
        >::empty());
    }
    let mut acc = ValueStream::Empty;
    while vals.len() > 0
        invariant
            vals@.len() <= vsv.len(),
            tbl_view(vals@) == vsv.take(vals@.len() as int),
            forall|j: int|
                0 <= j < vals@.len() ==> (#[trigger] vals@[j]).tag@ == (crate::tag::TagV {
                    span: sps[j],
                    anchor: None::<Seq<char>>,
                }) && val_view(vals@[j]) == vsv[j],
            acc.wf(),
            acc.model() == StreamM::Fin(
                echo_items(vsv.skip(vals@.len() as int), sps.skip(vals@.len() as int)),
            ),
        decreases vals@.len(),
    {
        let v = vals.pop().unwrap();
        let ghost i = vals@.len() as int;
        proof {
            assert(val_view(v) == vsv[i]);
            assert(v.tag.span == sps[i]);
            assert(vsv.skip(i)[0] == vsv[i]);
            assert(sps.skip(i)[0] == sps[i]);
            assert(vsv.skip(i).drop_first() =~= vsv.skip(i + 1));
            assert(sps.skip(i).drop_first() =~= sps.skip(i + 1));
            assert(tbl_view(vals@) =~= vsv.take(i));
        }
        let seg = echo_segment(v);
        let prev = acc;
        acc = ValueStream::Chain { first: Box::new(seg), second: Box::new(prev) };
        proof {
            assert(echo_items(vsv.skip(i), sps.skip(i)) == echo_item(vsv[i], sps[i]) + echo_items(
                vsv.skip(i + 1),
                sps.skip(i + 1),
            ));
        }
    }
    proof {
        assert(vsv.take(0) =~= tbl_view(vals@));
        assert(vsv.skip(0) =~= vsv);
        assert(sps.skip(0) =~= sps);
    }
    Ok(acc)
}

} // verus!
