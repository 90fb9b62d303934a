use crate::command::CommandArgs;
use crate::errors::{labeled_err, ErrV, ShellError};
use crate::evaluate::block::{block_arg, cap_entered, env_entered, single_condition};
use crate::evaluate::evaluation_context::EvaluationContext;
use crate::evaluate::evaluate_args::eval_args_spec;
use crate::evaluate::evaluator::{eval_expr, evaluate_baseline_expr};
use crate::scope::{capture_of, Scope};
use crate::stream::{StreamM, ValueStream};
use crate::tag::Span;
use crate::value::{UntaggedValue, ValV, Value};
use vstd::prelude::*;
use vstd::string::{StrSliceExecFns, StringExecFns};

verus! {

/// The variable-definition command: `let name = expr`. Its right-hand block
/// is evaluated in a transient scope seeded with the block's captured
/// bindings, and the result is bound in the caller's current frame — the
/// one case where a block's result is installed outside the scope used to
/// compute it.
pub struct Let;

/// The variable name a binding is installed under: marked as a variable
/// reference unless already marked.
pub open spec fn var_name_of(s: Seq<char>) -> Seq<char> {
    if s.len() > 0 && s[0] == '$' {
        s
    } else {
        seq!['$'] + s
    }
}

/// How the definition command comes out: a binding to install, a hard
/// failure, or a call whose arguments had the wrong shape (the message,
/// label and span of the reported error).
pub enum LetOutcome {
    Bound(Seq<char>, ValV),
    Fail(ErrV),
    Shape(Seq<char>, Seq<char>, Span),
}

/// The whole definition command, from the unevaluated call on: the first
/// argument must be the variable name, the third the right-hand block with
/// exactly one expression, which is evaluated under the block's captured
/// bindings.
pub open spec fn let_command_spec(
    call: crate::call_info::CallV,
    env: Seq<Map<Seq<char>, ValV>>,
    cap: Seq<(Seq<char>, ValV)>,
    name_span: Span,
) -> LetOutcome {
    match eval_args_spec(call, env, cap) {
        Err(e) => LetOutcome::Fail(e),
        Ok(ea) => match crate::call_info::spec_nth(ea, 0) {
            Some(ValV::Str(s)) => match block_arg(ea, 2) {
                Some(rhs) => match single_condition(rhs.block) {
                    None => LetOutcome::Fail(
                        labeled_err("Expected a value"@, "expected a value"@, name_span),
                    ),
                    Some(e) => {
                        let env2 = env_entered(env, rhs.captured);
                        let cap2 = cap_entered(cap, rhs.captured);
                        match eval_expr(e, env2, cap2) {
                            Err(err) => LetOutcome::Fail(err),
                            Ok(v) => LetOutcome::Bound(var_name_of(s), v),
                        }
                    },
                },
                None => LetOutcome::Shape(
                    "Expected a block"@,
                    "expected a block"@,
                    crate::call_info::shape_span(ea, call, 2, name_span),
                ),
            },
            _ => LetOutcome::Shape(
                "Expected a variable name"@,
                "expected a variable name"@,
                crate::call_info::shape_span(ea, call, 0, name_span),
            ),
        },
    }
}

impl Let {
    pub fn name(&self) -> (r: &'static str)
        ensures
            r@ == "let"@,
    {
        "let"
    }

    pub fn usage(&self) -> &'static str {
        "Create a variable and give it a value."
    }

    pub fn run(&self, args: CommandArgs, scope: &mut Scope) -> (r: Result<
        ValueStream,
        ShellError,
    >)
        requires
            old(scope).depth() > 0,
        ensures
            let_run_ok(
                args.call_info.args@,
                *old(scope),
                *final(scope),
                args.call_info.name_tag.span,
                r,
            ),
    {
        letcmd(args, scope)
    }
}

/// The contract of the definition command: on success the caller's scope
/// gains exactly the new binding in its current frame and the command
/// produces the empty stream; on any failure the scope is exactly as it
/// was.
pub open spec fn let_run_ok(
    call: crate::call_info::CallV,
    pre: Scope,
    post: Scope,
    name_span: Span,
    r: Result<ValueStream, ShellError>,
) -> bool {
    match let_command_spec(call, scope_view(pre), capture_of(pre), name_span) {
        LetOutcome::Bound(nm, vv) => {
            &&& r matches Ok(s) && s.wf() && s.model() == StreamM::Fin(Seq::<ValV>::empty())
            &&& scope_view(post) == scope_view(pre).update(
                scope_view(pre).len() - 1,
                scope_view(pre).last().insert(nm, vv),
            )
            &&& capture_of(post) == capture_of(pre).push((nm, vv))
        },
        LetOutcome::Fail(e) => (r matches Err(re) && re@ == e) && post.frames@ == pre.frames@,
        LetOutcome::Shape(msg, label, sp) => (r matches Err(re) && re@ == labeled_err(
            msg,
            label,
            sp,
        )) && post.frames@ == pre.frames@,
    }
}

/// The scope's lookup view, spelled as a free function.
pub open spec fn scope_view(s: Scope) -> Seq<Map<Seq<char>, ValV>> {
    crate::scope::scope_frames(s)
}

/// Marks a name as a variable reference unless it already is one.
fn to_var_name(s: &String) -> (r: String)
    ensures
        r@ == var_name_of(s@),
{
    let has_marker: bool = if s.as_str().unicode_len() > 0 {
        s.as_str().get_char(0) == '$'
    } else {
        false
    };
    if has_marker {
        s.clone()
    } else {
        let prefix: String = "$".to_owned();
        proof {
            reveal_strlit("$");
            assert(prefix@ =~= seq!['$']);
        }
        prefix.concat(s.as_str())
    }
}

pub fn letcmd(args: CommandArgs, scope: &mut Scope) -> (r: Result<ValueStream, ShellError>)
    requires
        old(scope).depth() > 0,
    ensures
        let_run_ok(args.call_info.args@, *old(scope), *final(scope), args.call_info.name_tag.span, r),
{
    let name_span = args.call_info.name_tag.span;
    let ctx = EvaluationContext::from_args(&args);
    let evaluated = match args.evaluate_once(&*scope) {
        Ok(ev) => ev,
        Err(e) => {
            return Err(e);
        },
    };
    let (_input, eargs) = evaluated.split();
    let name: String = match eargs.nth(0) {
        Some(v) => match &v.value {
            UntaggedValue::Str(s) => s.clone(),
            _ => {
                return Err(
                    ShellError::labeled_error(
                        "Expected a variable name",
                        "expected a variable name",
                        v.tag.span,
                    ),
                );
            },
        },
        None => {
            return Err(
                ShellError::labeled_error(
                    "Expected a variable name",
                    "expected a variable name",
                    name_span,
                ),
            );
        },
    };
    let rhs = match eargs.nth(2) {
        Some(v) => match &v.value {
            UntaggedValue::Block(b) => &**b,
            _ => {
                return Err(
                    ShellError::labeled_error("Expected a block", "expected a block", v.tag.span),
                );
            },
        },
        None => {
            return Err(
                ShellError::labeled_error("Expected a block", "expected a block", name_span),
            );
        },
    };
    let shape_ok: bool = rhs.block.body.len() == 1 && rhs.block.body[0].list.len() == 1;
    proof {
        let bv = crate::value::capblock_view(*rhs).block;
        assert(bv.body.len() == rhs.block.body@.len());
        if rhs.block.body@.len() == 1 {
            assert(bv.body[0] == crate::ast::pipeline_view(rhs.block.body@[0]));
            if rhs.block.body@[0].list@.len() == 1 {
                assert(bv.body[0].list[0] == crate::ast::spanned_expr_view(
                    rhs.block.body@[0].list@[0],
                ));
            }
        }
    }
    if !shape_ok {
        return Err(ShellError::labeled_error("Expected a value", "expected a value", name_span));
    }
    let rhs_expr = &rhs.block.body[0].list[0];
    scope.enter_scope();
    scope.add_vars(&rhs.captured);
    proof {
        assert(scope@ =~= env_entered(old(scope)@, crate::value::capblock_view(*rhs).captured));
        assert(capture_of(*scope) =~= cap_entered(
            capture_of(*old(scope)),
            crate::value::capblock_view(*rhs).captured,
        ));
    }
    let value = evaluate_baseline_expr(rhs_expr, &ctx, &*scope);
    scope.exit_scope();
    proof {
        assert(scope.frames@ =~= old(scope).frames@);
    }
    let value = match value {
        Ok(v) => v,
        Err(e) => {
            return Err(e);
        },
    };
    let var_name = to_var_name(&name);
    scope.add_var(var_name, value);
    Ok(ValueStream::Empty)
}

} // verus!
