use enginep::ast::{BlockDef, Expression, Literal, Operator, Pipeline, SpannedExpression};
use enginep::call_info::{Call, NamedValue, UnevaluatedCallInfo};
use enginep::command::{CommandArgs, RawCommandArgs};
use enginep::commands::each::{make_indexed_item, process_row};
use enginep::errors::ShellError;
use enginep::evaluate::block::run_block;
use enginep::evaluate::evaluation_context::EvaluationContext;
use enginep::evaluate::expr::run_expression_block;
use enginep::scope::Scope;
use enginep::shared::{ErrorSink, InterruptHandle};
use enginep::stream::ValueStream;
use enginep::tag::{Span, Tag};
use enginep::value::{CapturedBlock, Dictionary, UntaggedValue, Value};

fn small(n: i64) -> Value {
    UntaggedValue::SmallInt(n).into_untagged_value()
}

fn text(s: &str) -> Value {
    UntaggedValue::Str(s.to_owned()).into_value(Tag::unknown())
}

fn expr(e: Expression) -> SpannedExpression {
    SpannedExpression { expr: e, span: Span::new(0, 0) }
}

fn lit_int(n: i64) -> SpannedExpression {
    expr(Expression::Literal(Literal::Int(n)))
}

fn drain(mut s: ValueStream) -> Vec<Value> {
    let mut out = Vec::new();
    loop {
        match s.next() {
            Some(v) => out.push(v),
            None => return out,
        }
    }
}

#[test]
fn call_evaluation_separates_positional_and_named() {
    let ctx = EvaluationContext::basic();
    let scope = Scope::basic();
    let call = Call {
        positional: Some(vec![lit_int(5), lit_int(6)]),
        named: Some(vec![
            ("radix".to_owned(), NamedValue::Value(Span::new(0, 0), lit_int(16))),
            ("quiet".to_owned(), NamedValue::PresentSwitch(Span::new(0, 0))),
            ("missing".to_owned(), NamedValue::AbsentSwitch),
        ]),
        span: Span::new(0, 0),
    };
    let info = UnevaluatedCallInfo { args: call, name_tag: Tag::unknown() };
    let evaluated = info.evaluate(&ctx, &scope).unwrap();
    assert!(evaluated.args.nth(0).unwrap().same_value(&small(5)));
    assert!(evaluated.args.nth(1).unwrap().same_value(&small(6)));
    assert!(evaluated.args.nth(2).is_none());
    assert!(evaluated.args.get("radix").unwrap().same_value(&small(16)));
    let quiet = evaluated.args.get("quiet").unwrap();
    assert!(quiet.same_value(&UntaggedValue::Boolean(true).into_untagged_value()));
    assert!(evaluated.args.has("radix"));
    assert!(!evaluated.args.has("missing"));
    assert!(!evaluated.args.has("other"));
}

#[test]
fn empty_argument_groups_are_absent_not_empty() {
    let ctx = EvaluationContext::basic();
    let scope = Scope::basic();
    let call = Call { positional: Some(vec![]), named: Some(vec![]), span: Span::new(0, 0) };
    let info = UnevaluatedCallInfo { args: call, name_tag: Tag::unknown() };
    let evaluated = info.evaluate(&ctx, &scope).unwrap();
    assert!(evaluated.args.positional.is_none());
    assert!(evaluated.args.named.is_none());
}

#[test]
fn expect_nth_reports_a_missing_argument() {
    let raw = RawCommandArgs {
        ctrl_c: InterruptHandle::new(),
        current_errors: ErrorSink::new(),
        scope: Scope::basic(),
        call_info: UnevaluatedCallInfo {
            args: Call { positional: None, named: None, span: Span::new(0, 0) },
            name_tag: Tag::unknown(),
        },
    };
    let args = raw.with_input(ValueStream::Empty);
    let scope = Scope::basic();
    let evaluated = args.evaluate_once(&scope).unwrap();
    let (_input, eargs) = evaluated.split();
    match eargs.expect_nth(0) {
        Err(ShellError::UnimplementedError { .. }) => {},
        other => panic!("expected the unimplemented marker, got {:?}", other.err()),
    }
}

#[test]
fn run_block_yields_the_last_pipeline_value() {
    let ctx = EvaluationContext::basic();
    let scope = Scope::basic();
    let block = BlockDef {
        params: vec![],
        body: vec![
            Pipeline { list: vec![lit_int(1)] },
            Pipeline { list: vec![lit_int(2)] },
        ],
    };
    let out = drain(run_block(&block, &ctx, &scope, ValueStream::Empty).unwrap());
    assert_eq!(out.len(), 1);
    assert!(out[0].same_value(&small(2)));
}

#[test]
fn run_block_rejects_a_multi_stage_pipeline() {
    let ctx = EvaluationContext::basic();
    let scope = Scope::basic();
    let block = BlockDef {
        params: vec![],
        body: vec![Pipeline { list: vec![lit_int(1), lit_int(2)] }],
    };
    match run_block(&block, &ctx, &scope, ValueStream::Empty) {
        Err(ShellError::LabeledError { msg, .. }) => {
            assert_eq!(msg, "Expected a single expression pipeline")
        },
        other => panic!("expected a labeled error, got {:?}", other.err()),
    }
}

#[test]
fn expression_blocks_emit_one_value() {
    let ctx = EvaluationContext::basic();
    let scope = Scope::basic();
    let out = drain(
        run_expression_block(
            &expr(Expression::Binary(
                Box::new(lit_int(2)),
                Operator::Plus,
                Box::new(lit_int(3)),
            )),
            &ctx,
            &scope,
        )
        .unwrap(),
    );
    assert_eq!(out.len(), 1);
    assert!(out[0].same_value(&small(5)));
}

#[test]
fn process_row_restores_the_scope() {
    let ctx = EvaluationContext::basic();
    let mut scope = Scope::basic();
    scope.add_var("$seen".to_owned(), small(1));
    let block = CapturedBlock {
        block: BlockDef {
            params: vec!["row".to_owned()],
            body: vec![Pipeline {
                list: vec![expr(Expression::Binary(
                    Box::new(expr(Expression::Variable("row".to_owned()))),
                    Operator::Plus,
                    Box::new(lit_int(1)),
                ))],
            }],
        },
        captured: vec![],
    };
    let out = drain(process_row(&block, &ctx, &mut scope, small(9)).unwrap());
    assert_eq!(out.len(), 1);
    assert!(out[0].same_value(&small(10)));
    // the transient row binding is gone, the outer binding is intact
    assert!(scope.get_var(&"row".to_owned()).is_none());
    assert!(scope.get_var(&"$seen".to_owned()).is_some());
}

#[test]
fn indexed_items_hold_index_and_item() {
    let row = make_indexed_item(3, text("fred"));
    match &row.value {
        UntaggedValue::Row(Dictionary { entries }) => {
            assert_eq!(entries.len(), 2);
            assert_eq!(entries[0].0, "index");
            assert!(entries[0].1.same_value(&small(3)));
            assert_eq!(entries[1].0, "item");
            assert!(entries[1].1.same_value(&text("fred")));
        },
        other => panic!("expected a row, got {:?}", other),
    }
}

#[test]
fn duplicates_are_deep_and_equal() {
    let row = make_indexed_item(1, text("a"));
    let table = UntaggedValue::Table(vec![row, small(2)]).into_untagged_value();
    let copy = table.duplicate();
    assert!(copy.same_value(&table));
    let multiplied = small(6).mul(&small(7));
    assert!(multiplied.same_value(&small(42)));
    let promoted = small(i64::MAX).mul(&small(2));
    assert_eq!(promoted.as_string().unwrap(), "18446744073709551614");
}

#[test]
fn error_sink_accumulates_shared_errors() {
    let ctx = EvaluationContext::basic();
    let other_handle = ctx.share();
    ctx.error(ShellError::unimplemented("first"));
    other_handle.error(ShellError::unimplemented("second"));
    let errors = ctx.get_errors();
    assert_eq!(errors.len(), 2);
    ctx.clear_errors();
    assert_eq!(other_handle.get_errors().len(), 0);
}

#[test]
fn boolean_and_nothing_render_as_text() {
    assert_eq!(
        UntaggedValue::Boolean(true).into_untagged_value().as_string().unwrap(),
        "true"
    );
    assert!(UntaggedValue::Nothing.into_untagged_value().as_string().is_err());
    assert_eq!(small(-5).as_string().unwrap(), "-5");
    assert_eq!(small(0).as_string().unwrap(), "0");
}

#[test]
fn command_args_keep_their_call_through_input_attachment() {
    let raw = RawCommandArgs {
        ctrl_c: InterruptHandle::new(),
        current_errors: ErrorSink::new(),
        scope: Scope::basic(),
        call_info: UnevaluatedCallInfo {
            args: Call {
                positional: Some(vec![lit_int(9)]),
                named: None,
                span: Span::new(0, 0),
            },
            name_tag: Tag::unknown(),
        },
    };
    let args: CommandArgs = raw.with_input(ValueStream::from_vec(vec![small(1)]));
    let scope = Scope::basic();
    let evaluated = args.evaluate_once(&scope).unwrap();
    let (input, eargs) = evaluated.parts();
    assert!(eargs.nth(0).unwrap().same_value(&small(9)));
    assert_eq!(drain(input).len(), 1);
}
