use crate::ast::{spanned_expr_view, SpannedExpression, SpannedExprV};
use crate::errors::ShellError;
use crate::evaluate::evaluate_args::{eval_args_spec, evaluate_args};
use crate::evaluate::evaluation_context::EvaluationContext;
use crate::scope::{capture_of, Scope};
use crate::tag::{Span, Tag};
use crate::value::{val_view, ValV, Value};
use vstd::prelude::*;

verus! {

/// One named argument as the parser hands it over: a switch that is
/// present, a switch that is absent, or a named value expression.
#[derive(Debug)]
pub enum NamedValue {
    PresentSwitch(Span),
    AbsentSwitch,
    Value(Span, SpannedExpression),
}

/// An unevaluated command invocation: ordered positional argument
/// expressions, named and switch arguments, and the invocation's span.
#[derive(Debug)]
pub struct Call {
    pub positional: Option<Vec<SpannedExpression>>,
    pub named: Option<Vec<(String, NamedValue)>>,
    pub span: Span,
}

/// Mathematical content of a `NamedValue`.
pub enum NamedValueV {
    PresentSwitch(Span),
    AbsentSwitch,
    Value(Span, SpannedExprV),
}

/// Mathematical content of a `Call`.
pub struct CallV {
    pub positional: Option<Seq<SpannedExprV>>,
    pub named: Option<Seq<(Seq<char>, NamedValueV)>>,
    pub span: Span,
}

pub open spec fn named_value_view(n: NamedValue) -> NamedValueV {
    match n {
        NamedValue::PresentSwitch(s) => NamedValueV::PresentSwitch(s),
        NamedValue::AbsentSwitch => NamedValueV::AbsentSwitch,
        NamedValue::Value(s, e) => NamedValueV::Value(s, spanned_expr_view(e)),
    }
}

/// The views of a list of positional argument expressions.
pub open spec fn exprs_view(es: Seq<SpannedExpression>) -> Seq<SpannedExprV> {
    Seq::new(
        es.len(),
        |i: int|
            if 0 <= i < es.len() {
                spanned_expr_view(es[i])
            } else {
                SpannedExprV {
                    expr: crate::ast::ExprV::Literal(crate::ast::LitV::Nothing),
                    span: Span { start: 0, end: 0 },
                }
            },
    )
}

/// The views of a list of named argument entries.
pub open spec fn named_entries_ast_view(ns: Seq<(String, NamedValue)>) -> Seq<
    (Seq<char>, NamedValueV),
> {
    Seq::new(
        ns.len(),
        |i: int|
            if 0 <= i < ns.len() {
                (ns[i].0@, named_value_view(ns[i].1))
            } else {
                (Seq::empty(), NamedValueV::AbsentSwitch)
            },
    )
}

impl View for Call {
    type V = CallV;

    open spec fn view(&self) -> CallV {
        CallV {
            positional: match self.positional {
                Some(es) => Some(exprs_view(es@)),
                None => None,
            },
            named: match self.named {
                Some(ns) => Some(named_entries_ast_view(ns@)),
                None => None,
            },
            span: self.span,
        }
    }
}

/// The concrete arguments of an invocation after evaluation: ordered
/// positional values and named values, each group `None` when the call
/// supplied no entries of that group.
#[derive(Debug)]
pub struct EvaluatedArgs {
    pub positional: Option<Vec<Value>>,
    pub named: Option<Vec<(String, Value)>>,
}

/// Mathematical content of `EvaluatedArgs`.
pub struct EvaluatedArgsV {
    pub positional: Option<Seq<ValV>>,
    pub named: Option<Seq<(Seq<char>, ValV)>>,
}

impl View for EvaluatedArgs {
    type V = EvaluatedArgsV;

    open spec fn view(&self) -> EvaluatedArgsV {
        EvaluatedArgsV {
            positional: match self.positional {
                Some(vs) => Some(crate::value::tbl_view(vs@)),
                None => None,
            },
            named: match self.named {
                Some(ns) => Some(crate::value::entries_view(ns@)),
                None => None,
            },
        }
    }
}

/// The positional value at `pos`, if the call supplied one.
pub open spec fn spec_nth(ea: EvaluatedArgsV, pos: int) -> Option<ValV> {
    match ea.positional {
        Some(vs) => if 0 <= pos < vs.len() {
            Some(vs[pos])
        } else {
            None
        },
        None => None,
    }
}

/// The first named value bound under `name`, if any.
pub open spec fn spec_named_lookup(ns: Seq<(Seq<char>, ValV)>, name: Seq<char>) -> Option<ValV>
    decreases ns.len(),
{
    if ns.len() == 0 {
        None
    } else if ns[0].0 == name {
        Some(ns[0].1)
    } else {
        spec_named_lookup(ns.drop_first(), name)
    }
}

pub open spec fn spec_get(ea: EvaluatedArgsV, name: Seq<char>) -> Option<ValV> {
    match ea.named {
        Some(ns) => spec_named_lookup(ns, name),
        None => None,
    }
}

impl EvaluatedArgs {
    /// The positional argument at `pos`.
    pub fn nth(&self, pos: usize) -> (r: Option<&Value>)
        ensures
            match r {
                Some(v) => spec_nth(self@, pos as int) == Some(val_view(*v)) && (self.positional
                    matches Some(vs) && pos < vs@.len() && *v == vs@[pos as int]),
                None => spec_nth(self@, pos as int) is None,
            },
    {
        match &self.positional {
            Some(vs) => {
                if pos < vs.len() {
                    Some(&vs[pos])
                } else {
                    None
                }
            },
            None => None,
        }
    }

    /// The named argument bound under `name`.
    #[verifier::loop_isolation(false)]
    pub fn get(&self, name: &str) -> (r: Option<&Value>)
        ensures
            match r {
                Some(v) => spec_get(self@, name@) == Some(val_view(*v)) && (self.named
                    matches Some(ns) && exists|i: int|
                    0 <= i < ns@.len() && ns@[i].0@ == name@ && *v == ns@[i].1),
                None => spec_get(self@, name@) is None,
            },
    {
        let wanted: String = name.to_owned();
        match &self.named {
            Some(ns) => {
                let ghost nsv = crate::value::entries_view(ns@);
                let mut i: usize = 0;
                proof {
                    assert(nsv.skip(0) =~= nsv);
                }
                while i < ns.len()
                    invariant
                        0 <= i <= ns@.len(),
                        nsv == crate::value::entries_view(ns@),
                        wanted@ == name@,
                        spec_named_lookup(nsv, name@) == spec_named_lookup(
                            nsv.skip(i as int),
                            name@,
                        ),
                    decreases ns@.len() - i,
                {
                    proof {
                        assert(nsv.skip(i as int)[0] == nsv[i as int]);
                        assert(nsv.skip(i as int).drop_first() =~= nsv.skip(i + 1));
                    }
                    proof {
                        assert(nsv[i as int] == (ns@[i as int].0@, val_view(ns@[i as int].1)));
                    }
                    if ns[i].0 == wanted {
                        proof {
                            assert(self@.named == Some(nsv));
                            assert(spec_named_lookup(nsv.skip(i as int), name@) == Some(
                                val_view(ns@[i as int].1),
                            ));
                        }
                        return Some(&ns[i].1);
                    }
                    i = i + 1;
                }
                proof {
                    assert(nsv.skip(ns@.len() as int) =~= Seq::<(Seq<char>, ValV)>::empty());
                }
                None
            },
            None => None,
        }
    }

    /// Whether the call supplied a named argument or switch under `name`.
    pub fn has(&self, name: &str) -> (r: bool)
        ensures
            r == (spec_get(self@, name@) is Some),
    {
        match self.get(name) {
            Some(_) => true,
            None => false,
        }
    }
}

/// Every evaluated positional value carries the span of the expression it
/// came from.
pub open spec fn positional_tags_ok(ea: EvaluatedArgs, c: CallV) -> bool {
    match c.positional {
        Some(es) => match ea.positional {
            Some(vs) => vs@.len() == es.len() && forall|i: int|
                0 <= i < vs@.len() ==> (#[trigger] vs@[i]).tag@ == (crate::tag::TagV {
                    span: es[i].span,
                    anchor: None::<Seq<char>>,
                }),
            None => true,
        },
        None => ea.positional is None,
    }
}

/// The span a malformed argument at position `i` is reported at: the
/// argument expression's own span when the call supplied one, and the
/// fallback (the invocation's span) when it did not.
pub open spec fn shape_span(ea: EvaluatedArgsV, c: CallV, i: int, fallback: crate::tag::Span)
    -> crate::tag::Span {
    if spec_nth(ea, i) is Some {
        match c.positional {
            Some(es) => if 0 <= i < es.len() {
                es[i].span
            } else {
                fallback
            },
            None => fallback,
        }
    } else {
        fallback
    }
}

/// The name and result span of each named entry that evaluation produces,
/// in order: a present switch produces its boolean at the switch's own
/// span, a named value at its expression's span, and an absent switch
/// produces nothing.
pub open spec fn named_spans(ns: Seq<(Seq<char>, NamedValueV)>) -> Seq<(Seq<char>, Span)>
    decreases ns.len(),
{
    if ns.len() == 0 {
        Seq::empty()
    } else {
        named_spans(ns.drop_last()) + match ns.last().1 {
            NamedValueV::PresentSwitch(sp) => seq![(ns.last().0, sp)],
            NamedValueV::AbsentSwitch => Seq::empty(),
            NamedValueV::Value(_, e) => seq![(ns.last().0, e.span)],
        }
    }
}

/// Every evaluated named value carries the span of the switch or expression
/// it came from.
pub open spec fn named_tags_ok(ea: EvaluatedArgs, c: CallV) -> bool {
    match c.named {
        Some(ns) => match ea.named {
            Some(vs) => vs@.len() == named_spans(ns).len() && forall|i: int|
                0 <= i < vs@.len() ==> (#[trigger] vs@[i]).1.tag@ == (crate::tag::TagV {
                    span: named_spans(ns)[i].1,
                    anchor: None::<Seq<char>>,
                }),
            None => true,
        },
        None => ea.named is None,
    }
}

/// Every evaluated argument value, positional or named, carries the span of
/// the expression or switch it came from.
pub open spec fn tags_ok(ea: EvaluatedArgs, c: CallV) -> bool {
    positional_tags_ok(ea, c) && named_tags_ok(ea, c)
}

/// An immutable record of a command invocation, before its arguments are
/// evaluated. Evaluation consumes it; a caller that needs to evaluate again
/// keeps its own copy of the unevaluated form.
#[derive(Debug)]
pub struct UnevaluatedCallInfo {
    pub args: Call,
    pub name_tag: Tag,
}

/// An invocation after its arguments were evaluated.
#[derive(Debug)]
pub struct CallInfo {
    pub args: EvaluatedArgs,
    pub name_tag: Tag,
}

/// Whether the call carries a present switch of the given name.
pub open spec fn spec_switch_present(c: CallV, name: Seq<char>) -> bool {
    match c.named {
        Some(ns) => exists|i: int|
            0 <= i < ns.len() && ns[i].0 == name && ns[i].1 is PresentSwitch,
        None => false,
    }
}

impl UnevaluatedCallInfo {
    /// Evaluates the recorded invocation against the given scope, consuming
    /// the record.
    pub fn evaluate(self, ctx: &EvaluationContext, scope: &Scope) -> (r: Result<
        CallInfo,
        ShellError,
    >)
        ensures
            match r {
                Ok(ci) => eval_args_spec(self.args@, scope@, capture_of(*scope)) == Ok::<
                    EvaluatedArgsV,
                    crate::errors::ErrV,
                >(ci.args@) && ci.name_tag@ == self.name_tag@ && tags_ok(ci.args, self.args@),
                Err(e) => eval_args_spec(self.args@, scope@, capture_of(*scope)) == Err::<
                    EvaluatedArgsV,
                    crate::errors::ErrV,
                >(e@),
            },
    {
        let args = match evaluate_args(&self.args, ctx, scope) {
            Ok(a) => a,
            Err(e) => {
                return Err(e);
            },
        };
        Ok(CallInfo { args, name_tag: self.name_tag })
    }

    /// Whether the given switch is present on this call.
    #[verifier::loop_isolation(false)]
    pub fn switch_present(&self, switch: &str) -> (r: bool)
        ensures
            r == spec_switch_present(self.args@, switch@),
    {
        let wanted: String = switch.to_owned();
        match &self.args.named {
            Some(ns) => {
                let ghost nsv = named_entries_ast_view(ns@);
                proof {
                    assert(self.args@.named == Some(nsv));
                }
                let mut i: usize = 0;
                while i < ns.len()
                    invariant
                        0 <= i <= ns@.len(),
                        wanted@ == switch@,
                        nsv == named_entries_ast_view(ns@),
                        self.args@.named == Some(nsv),
                        forall|j: int|
                            0 <= j < i ==> !(nsv[j].0 == switch@ && nsv[j].1 is PresentSwitch),
                    decreases ns@.len() - i,
                {
                    proof {
                        assert(nsv[i as int] == (
                            ns@[i as int].0@,
                            named_value_view(ns@[i as int].1),
                        ));
                    }
                    let hit = match &ns[i].1 {
                        NamedValue::PresentSwitch(_) => ns[i].0 == wanted,
                        _ => false,
                    };
                    if hit {
                        proof {
                            assert(nsv[i as int].0 == switch@ && nsv[i as int].1
                                is PresentSwitch);
                        }
                        return true;
                    }
                    i = i + 1;
                }
                false
            },
            None => false,
        }
    }
}

} // verus!
