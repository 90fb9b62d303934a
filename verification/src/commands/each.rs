use crate::ast::BlockV;
use crate::command::CommandArgs;
use crate::errors::{ErrV, ShellError};
use crate::evaluate::block::{cap_entered, env_entered, run_block, run_block_spec, block_arg};
use crate::evaluate::evaluation_context::EvaluationContext;
use crate::evaluate::evaluate_args::eval_args_spec;
use crate::scope::{capture_of, Scope};
use crate::stream::{fin_seq, StreamM, ValueStream};
use crate::value::{
    capblock_view, entries_view, tbl_view, val_view, CapturedBlock, Dictionary, UntaggedValue,
    ValV, Value,
};
use vstd::prelude::*;

verus! {

/// The per-row iteration command: runs its block argument once for every
/// upstream element, flattening the per-row outputs into one stream in
/// upstream order.
pub struct Each;

/// The variable one row is bound under: the block's single declared
/// parameter, or the implicit current-item variable when the block declares
/// none.
pub open spec fn row_param_name(b: BlockV) -> Seq<char> {
    if b.params.len() > 0 {
        b.params[0]
    } else {
        "$it"@
    }
}

/// The lookup environment one row's block body runs in: a fresh frame
/// seeded with the captured bindings and the row binding.
pub open spec fn row_env(
    b: crate::value::BlockValV,
    env: Seq<Map<Seq<char>, ValV>>,
    item: ValV,
) -> Seq<Map<Seq<char>, ValV>> {
    let env2 = env_entered(env, b.captured);
    env2.update(env2.len() - 1, env2.last().insert(row_param_name(b.block), item))
}

/// The capture list inside one row's block body.
pub open spec fn row_cap(
    b: crate::value::BlockValV,
    cap: Seq<(Seq<char>, ValV)>,
    item: ValV,
) -> Seq<(Seq<char>, ValV)> {
    cap_entered(cap, b.captured).push((row_param_name(b.block), item))
}

/// What one row produces: the block body's output, or a single
/// `Error`-variant element when the row's execution fails — one failing row
/// never aborts the whole iteration.
pub open spec fn row_out(
    b: crate::value::BlockValV,
    env: Seq<Map<Seq<char>, ValV>>,
    cap: Seq<(Seq<char>, ValV)>,
    item: ValV,
) -> Seq<ValV> {
    match run_block_spec(b.block, row_env(b, env, item), row_cap(b, cap, item)) {
        Ok(vs) => vs,
        Err(e) => seq![ValV::Error(e)],
    }
}

/// The flattened outputs of every row, in input order.
pub open spec fn rows_out(
    b: crate::value::BlockValV,
    env: Seq<Map<Seq<char>, ValV>>,
    cap: Seq<(Seq<char>, ValV)>,
    items: Seq<ValV>,
) -> Seq<ValV>
    decreases items.len(),
{
    if items.len() == 0 {
        Seq::empty()
    } else {
        row_out(b, env, cap, items[0]) + rows_out(b, env, cap, items.drop_first())
    }
}

/// Prepares the scope for one row and hands back the bound name, so that
/// the row's block body sees exactly `row_env` and `row_cap`.
fn enter_row(block: &CapturedBlock, scope: &mut Scope, item: Value)
    requires
        old(scope).depth() > 0,
    ensures
        final(scope).depth() == old(scope).depth() + 1,
        final(scope).frames@.drop_last() == old(scope).frames@,
        final(scope)@ == row_env(capblock_view(*block), old(scope)@, val_view(item)),
        capture_of(*final(scope)) == row_cap(
            capblock_view(*block),
            capture_of(*old(scope)),
            val_view(item),
        ),
{
    scope.enter_scope();
    scope.add_vars(&block.captured);
    let pname: String = if block.block.params.len() > 0 {
        block.block.params[0].clone()
    } else {
        "$it".to_owned()
    };
    proof {
        let bv = capblock_view(*block).block;
        assert(bv.params.len() == block.block.params@.len());
        if block.block.params@.len() > 0 {
            assert(bv.params[0] == block.block.params@[0]@);
        }
        assert(pname@ == row_param_name(bv));
    }
    scope.add_var(pname, item);
    proof {
        assert(scope@ =~= row_env(capblock_view(*block), old(scope)@, val_view(item)));
        assert(capture_of(*scope) =~= row_cap(
            capblock_view(*block),
            capture_of(*old(scope)),
            val_view(item),
        ));
        assert(scope.frames@.drop_last() =~= old(scope).frames@);
    }
}

/// Runs the block for one row: enters a fresh scope, merges the captured
/// bindings, binds the row, executes the body with an empty input stream
/// (or the row itself when the block declares no parameter), and exits the
/// scope again.
pub fn process_row(
    captured_block: &CapturedBlock,
    context: &EvaluationContext,
    scope: &mut Scope,
    input: Value,
) -> (r: Result<ValueStream, ShellError>)
    requires
        old(scope).depth() > 0,
    ensures
        final(scope).frames@ == old(scope).frames@,
        ({
            let spec_r = run_block_spec(
                capblock_view(*captured_block).block,
                row_env(capblock_view(*captured_block), old(scope)@, val_view(input)),
                row_cap(capblock_view(*captured_block), capture_of(*old(scope)), val_view(input)),
            );
            match r {
                Ok(s) => s.wf() && (spec_r matches Ok(out) && s.model() == StreamM::Fin(out)),
                Err(e) => spec_r == Err::<Seq<ValV>, ErrV>(e@),
            }
        }),
{
    let has_params: bool = captured_block.block.params.len() > 0;
    let input_stream: ValueStream = if has_params {
        enter_row(captured_block, scope, input);
        ValueStream::Empty
    } else {
        let dup = input.duplicate();
        enter_row(captured_block, scope, input);
        ValueStream::once(dup)
    };
    let result = run_block(&captured_block.block, context, &*scope, input_stream);
    scope.exit_scope();
    proof {
        assert(scope.frames@ =~= old(scope).frames@);
    }
    result
}

/// Runs the block for one row and materializes the row's output, turning a
/// row failure into a single `Error`-variant element.
pub fn row_values(
    captured_block: &CapturedBlock,
    context: &EvaluationContext,
    scope: &mut Scope,
    input: Value,
) -> (r: Vec<Value>)
    requires
        old(scope).depth() > 0,
    ensures
        final(scope).frames@ == old(scope).frames@,
        tbl_view(r@) == row_out(
            capblock_view(*captured_block),
            old(scope)@,
            capture_of(*old(scope)),
            val_view(input),
        ),
{
    enter_row(captured_block, scope, input);
    let res = crate::evaluate::block::run_block_last(&captured_block.block, context, &*scope);
    scope.exit_scope();
    proof {
        assert(scope.frames@ =~= old(scope).frames@);
    }
    let mut out: Vec<Value> = Vec::new();
    match res {
        Ok(Some(v)) => {
            let ghost vv = val_view(v);
            out.push(v);
            proof {
                assert(tbl_view(out@) =~= seq![vv]);
            }
        },
        Ok(None) => {
            proof {
                assert(tbl_view(out@) =~= Seq::<ValV>::empty());
            }
        },
        Err(e) => {
            let ghost ev = e@;
            out.push(UntaggedValue::Error(e).into_untagged_value());
            proof {
                assert(tbl_view(out@) =~= seq![ValV::Error(ev)]);
            }
        },
    }
    out
}

/// A row record of an index and an item, for numbered iteration; its field
/// names are unique, as every row's must be.
pub fn make_indexed_item(index: i64, item: Value) -> (r: Value)
    ensures
        val_view(r) == ValV::Row(
            seq![
                ("index"@, ValV::Small(index as int)),
                ("item"@, val_view(item)),
            ],
        ),
        crate::value::row_keys_unique(val_view(r)->Row_0),
{
    let tag = item.tag.duplicate();
    let mut entries: Vec<(String, Value)> = Vec::new();
    entries.push(("index".to_owned(), UntaggedValue::SmallInt(index).into_untagged_value()));
    entries.push(("item".to_owned(), item));
    let r = Value { value: UntaggedValue::Row(Dictionary { entries }), tag };
    proof {
        reveal_strlit("index");
        reveal_strlit("item");
        assert("index"@.len() != "item"@.len());
        assert(entries_view(r.value->Row_0.entries@) =~= seq![
            ("index"@, ValV::Small(index as int)),
            ("item"@, val_view(r.value->Row_0.entries@[1].1)),
        ]);
    }
    r
}

/// How the iteration command comes out: the block to run per row, a hard
/// failure, or a first argument that is not a block (with the span the
/// malformed argument is reported at).
pub enum EachOutcome {
    Iterate(crate::value::BlockValV),
    Fail(ErrV),
    BadShape(crate::tag::Span),
}

pub open spec fn each_command_spec(
    call: crate::call_info::CallV,
    env: Seq<Map<Seq<char>, ValV>>,
    cap: Seq<(Seq<char>, ValV)>,
    name_span: crate::tag::Span,
) -> EachOutcome {
    match eval_args_spec(call, env, cap) {
        Err(e) => EachOutcome::Fail(e),
        Ok(ea) => match block_arg(ea, 0) {
            Some(b) => EachOutcome::Iterate(b),
            None => EachOutcome::BadShape(
                crate::call_info::shape_span(ea, call, 0, name_span),
            ),
        },
    }
}

impl Each {
    pub fn name(&self) -> (r: &'static str)
        ensures
            r@ == "each"@,
    {
        "each"
    }

    pub fn usage(&self) -> &'static str {
        "Run a block on each row of the table."
    }

    pub fn run(&self, args: CommandArgs, scope: &Scope) -> (r: Result<ValueStream, ShellError>)
        requires
            scope.depth() > 0,
            args.input.wf(),
            args.input.model() is Fin,
        ensures
            ({
                let outcome = each_command_spec(
                    args.call_info.args@,
                    scope@,
                    capture_of(*scope),
                    args.call_info.name_tag.span,
                );
                match outcome {
                    EachOutcome::Iterate(b) => r matches Ok(s) && s.wf() && s.model()
                        == StreamM::Fin(
                        rows_out(b, scope@, capture_of(*scope), fin_seq(args.input.model())),
                    ),
                    EachOutcome::Fail(e) => r matches Err(re) && re@ == e,
                    EachOutcome::BadShape(sp) => r matches Err(re) && re@
                        == crate::errors::labeled_err(
                        "Expected a block"@,
                        "expected a block"@,
                        sp,
                    ),
                }
            }),
    {
        each(args, scope)
    }
}

fn each(raw_args: CommandArgs, scope: &Scope) -> (r: Result<ValueStream, ShellError>)
    requires
        scope.depth() > 0,
        raw_args.input.wf(),
        raw_args.input.model() is Fin,
    ensures
        ({
            let outcome = each_command_spec(
                raw_args.call_info.args@,
                scope@,
                capture_of(*scope),
                raw_args.call_info.name_tag.span,
            );
            match outcome {
                EachOutcome::Iterate(b) => r matches Ok(s) && s.wf() && s.model() == StreamM::Fin(
                    rows_out(b, scope@, capture_of(*scope), fin_seq(raw_args.input.model())),
                ),
                EachOutcome::Fail(e) => r matches Err(re) && re@ == e,
                EachOutcome::BadShape(sp) => r matches Err(re) && re@
                    == crate::errors::labeled_err(
                    "Expected a block"@,
                    "expected a block"@,
                    sp,
                ),
            }
        }),
{
    let name_span = raw_args.call_info.name_tag.span;
    let ctx = EvaluationContext::from_args(&raw_args);
    let evaluated = match raw_args.evaluate_once(&*scope) {
        Ok(ev) => ev,
        Err(e) => {
            return Err(e);
        },
    };
    let ghost call = raw_args.call_info.args@;
    let (input, args) = evaluated.split();
    let block: CapturedBlock = match crate::evaluate::block::expect_block_arg(
        &args,
        0,
        name_span,
        Ghost(call),
    ) {
        Ok(cb) => cb.duplicate(),
        Err(e) => {
            return Err(e);
        },
    };
    let base = scope.duplicate();
    let stage = ValueStream::Rows {
        block: Box::new(block),
        ctx,
        base,
        upstream: Box::new(input),
        pending: Vec::new(),
        ppos: 0,
    };
    proof {
        assert(tbl_view(stage->Rows_pending@).skip(0) =~= Seq::<ValV>::empty());
        assert(Seq::<ValV>::empty() + rows_out(
            capblock_view(*stage->Rows_block),
            scope@,
            capture_of(*scope),
            fin_seq(raw_args.input.model()),
        ) =~= rows_out(
            capblock_view(*stage->Rows_block),
            scope@,
            capture_of(*scope),
            fin_seq(raw_args.input.model()),
        ));
    }
    Ok(stage)
}

} // verus!
