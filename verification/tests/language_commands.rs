use enginep::ast::{BlockDef, Expression, Literal, Operator, Pipeline, SpannedExpression};
use enginep::call_info::{Call, NamedValue, UnevaluatedCallInfo};
use enginep::command::CommandArgs;
use enginep::commands::build_string::BuildString;
use enginep::commands::char_::{str_to_character, string_to_unicode_char, Char};
use enginep::commands::each::Each;
use enginep::commands::echo::Echo;
use enginep::commands::if_::If;
use enginep::commands::let_::Let;
use enginep::commands::open::OpenCommand;
use enginep::commands::str_collect::SubCommand as StrCollect;
use enginep::commands::str_to_int::{action, SubCommand as StrToInt};
use enginep::errors::ShellError;
use enginep::evaluate::evaluation_context::EvaluationContext;
use enginep::evaluate::evaluator::evaluate_baseline_expr;
use enginep::scope::Scope;
use enginep::shared::{ErrorSink, InterruptHandle};
use enginep::stream::ValueStream;
use enginep::tag::{Span, Tag};
use enginep::value::{CapturedBlock, RangeValue, UntaggedValue, Value};

fn small(n: i64) -> Value {
    UntaggedValue::SmallInt(n).into_untagged_value()
}

fn text(s: &str) -> Value {
    UntaggedValue::Str(s.to_owned()).into_value(Tag::unknown())
}

fn expr(e: Expression) -> SpannedExpression {
    SpannedExpression { expr: e, span: Span::new(0, 0) }
}

fn lit_int(n: i64) -> SpannedExpression {
    expr(Expression::Literal(Literal::Int(n)))
}

fn lit_text(s: &str) -> SpannedExpression {
    expr(Expression::Literal(Literal::Text(s.to_owned())))
}

fn var(name: &str) -> SpannedExpression {
    expr(Expression::Variable(name.to_owned()))
}

fn binary(l: SpannedExpression, op: Operator, r: SpannedExpression) -> SpannedExpression {
    expr(Expression::Binary(Box::new(l), op, Box::new(r)))
}

fn block_of(params: &[&str], body: SpannedExpression) -> SpannedExpression {
    expr(Expression::Block(Box::new(BlockDef {
        params: params.iter().map(|p| (*p).to_owned()).collect(),
        body: vec![Pipeline { list: vec![body] }],
    })))
}

fn call_with(positional: Vec<SpannedExpression>) -> Call {
    Call { positional: Some(positional), named: None, span: Span::new(0, 0) }
}

fn args_for(call: Call, input: ValueStream) -> CommandArgs {
    CommandArgs {
        ctrl_c: InterruptHandle::new(),
        current_errors: ErrorSink::new(),
        call_info: UnevaluatedCallInfo { args: call, name_tag: Tag::unknown() },
        input,
    }
}

fn drain(mut s: ValueStream) -> Vec<Value> {
    let mut out = Vec::new();
    loop {
        match s.next() {
            Some(v) => out.push(v),
            None => return out,
        }
    }
}

#[test]
fn scope_nesting_does_not_leak() {
    let mut scope = Scope::basic();
    scope.add_var("$x".to_owned(), small(1));
    scope.enter_scope();
    scope.add_var("$y".to_owned(), small(2));
    assert!(scope.get_var(&"$y".to_owned()).is_some());
    scope.exit_scope();
    assert!(scope.get_var(&"$y".to_owned()).is_none());
    let x = scope.get_var(&"$x".to_owned()).expect("outer binding survives");
    assert!(x.same_value(&small(1)));
}

#[test]
fn scope_shadowing_restores_on_exit() {
    let mut scope = Scope::basic();
    scope.add_var("$x".to_owned(), small(1));
    scope.enter_scope();
    scope.add_var("$x".to_owned(), small(99));
    let inner = scope.get_var(&"$x".to_owned()).unwrap();
    assert!(inner.same_value(&small(99)));
    scope.exit_scope();
    let outer = scope.get_var(&"$x".to_owned()).unwrap();
    assert!(outer.same_value(&small(1)));
}

#[test]
fn evaluator_computes_binary_operators() {
    let ctx = EvaluationContext::basic();
    let scope = Scope::basic();
    let v = evaluate_baseline_expr(
        &binary(lit_int(6), Operator::Multiply, lit_int(7)),
        &ctx,
        &scope,
    )
    .unwrap();
    assert!(v.same_value(&small(42)));
    let gt = evaluate_baseline_expr(
        &binary(lit_int(6), Operator::GreaterThan, lit_int(7)),
        &ctx,
        &scope,
    )
    .unwrap();
    assert!(v.same_value(&small(42)));
    assert!(gt.same_value(&UntaggedValue::Boolean(false).into_untagged_value()));
}

#[test]
fn evaluator_reports_unknown_variables() {
    let ctx = EvaluationContext::basic();
    let scope = Scope::basic();
    let r = evaluate_baseline_expr(&var("$missing"), &ctx, &scope);
    match r {
        Err(ShellError::LabeledError { .. }) => {},
        other => panic!("expected a labeled error, got {:?}", other),
    }
}

#[test]
fn evaluator_reports_coercion_mismatch_with_both_sides() {
    let ctx = EvaluationContext::basic();
    let scope = Scope::basic();
    let r = evaluate_baseline_expr(
        &binary(lit_text("pear"), Operator::Plus, lit_int(7)),
        &ctx,
        &scope,
    );
    match r {
        Err(ShellError::CoercionError { left, right, .. }) => {
            assert_eq!(left, "string");
            assert_eq!(right, "integer");
        },
        other => panic!("expected a coercion error, got {:?}", other),
    }
}

#[test]
fn conditional_takes_the_then_branch() {
    let mut scope = Scope::basic();
    scope.add_var("$x".to_owned(), small(10));
    let call = call_with(vec![
        block_of(&[], binary(var("$x"), Operator::GreaterThan, lit_int(5))),
        block_of(&[], lit_text("A")),
        block_of(&[], lit_text("B")),
    ]);
    let out = drain(If.run(args_for(call, ValueStream::Empty), &mut scope).unwrap());
    assert_eq!(out.len(), 1);
    assert_eq!(out[0].as_string().unwrap(), "A");
}

#[test]
fn conditional_takes_the_else_branch() {
    let mut scope = Scope::basic();
    scope.add_var("$x".to_owned(), small(1));
    let call = call_with(vec![
        block_of(&[], binary(var("$x"), Operator::GreaterThan, lit_int(5))),
        block_of(&[], lit_text("A")),
        block_of(&[], lit_text("B")),
    ]);
    let out = drain(If.run(args_for(call, ValueStream::Empty), &mut scope).unwrap());
    assert_eq!(out.len(), 1);
    assert_eq!(out[0].as_string().unwrap(), "B");
}

#[test]
fn conditional_rejects_a_non_block_argument() {
    let mut scope = Scope::basic();
    let call = call_with(vec![lit_int(1), block_of(&[], lit_text("A")), block_of(
        &[],
        lit_text("B"),
    )]);
    let r = If.run(args_for(call, ValueStream::Empty), &mut scope);
    match r {
        Err(ShellError::LabeledError { msg, .. }) => assert_eq!(msg, "Expected a block"),
        Err(other) => panic!("expected a labeled error, got {:?}", other),
        Ok(_) => panic!("expected an error, got an output stream"),
    }
}

#[test]
fn conditional_with_non_boolean_condition_yields_an_error_element() {
    let mut scope = Scope::basic();
    let call = call_with(vec![
        block_of(&[], lit_int(3)),
        block_of(&[], lit_text("A")),
        block_of(&[], lit_text("B")),
    ]);
    let out = drain(If.run(args_for(call, ValueStream::Empty), &mut scope).unwrap());
    assert_eq!(out.len(), 1);
    assert!(matches!(out[0].value, UntaggedValue::Error(_)));
}

#[test]
fn let_binds_in_the_callers_scope() {
    let mut scope = Scope::basic();
    let call = call_with(vec![
        lit_text("answer"),
        lit_text("="),
        block_of(&[], binary(lit_int(40), Operator::Plus, lit_int(2))),
    ]);
    let out = drain(Let.run(args_for(call, ValueStream::Empty), &mut scope).unwrap());
    assert_eq!(out.len(), 0);
    let bound = scope.get_var(&"$answer".to_owned()).expect("the binding is installed");
    assert!(bound.same_value(&small(42)));
}

#[test]
fn let_keeps_an_existing_variable_marker() {
    let mut scope = Scope::basic();
    let call = call_with(vec![lit_text("$answer"), lit_text("="), block_of(&[], lit_int(7))]);
    drain(Let.run(args_for(call, ValueStream::Empty), &mut scope).unwrap());
    let bound = scope.get_var(&"$answer".to_owned()).unwrap();
    assert!(bound.same_value(&small(7)));
}

#[test]
fn each_squares_every_row_in_order() {
    let scope = Scope::basic();
    let call = call_with(vec![block_of(
        &["row"],
        binary(var("row"), Operator::Multiply, var("row")),
    )]);
    let input = ValueStream::from_vec(vec![small(1), small(2), small(3)]);
    let out = drain(Each.run(args_for(call, input), &scope).unwrap());
    let got: Vec<i64> = out
        .iter()
        .map(|v| match &v.value {
            UntaggedValue::SmallInt(n) => *n,
            other => panic!("expected an integer, got {:?}", other),
        })
        .collect();
    assert_eq!(got, vec![1, 4, 9]);
}

#[test]
fn each_binds_the_implicit_item_variable() {
    let scope = Scope::basic();
    let call = call_with(vec![block_of(
        &[],
        binary(var("$it"), Operator::Plus, lit_int(10)),
    )]);
    let input = ValueStream::from_vec(vec![small(1), small(2)]);
    let out = drain(Each.run(args_for(call, input), &scope).unwrap());
    assert!(out[0].same_value(&small(11)));
    assert!(out[1].same_value(&small(12)));
}

#[test]
fn echo_emits_string_arguments() {
    let scope = Scope::basic();
    let call = call_with(vec![lit_text("hello")]);
    let out = drain(Echo.run(args_for(call, ValueStream::Empty), &scope).unwrap());
    assert_eq!(out.len(), 1);
    assert_eq!(out[0].as_string().unwrap(), "hello");
}

#[test]
fn echo_flattens_a_table_argument() {
    let mut scope = Scope::basic();
    let table = UntaggedValue::Table(vec![small(4), small(5)]).into_untagged_value();
    scope.add_var("$t".to_owned(), table);
    let call = call_with(vec![var("$t")]);
    let out = drain(Echo.run(args_for(call, ValueStream::Empty), &scope).unwrap());
    assert_eq!(out.len(), 2);
    assert!(out[0].same_value(&small(4)));
    assert!(out[1].same_value(&small(5)));
}

#[test]
fn echo_expands_a_range_inclusively() {
    let mut scope = Scope::basic();
    let range = UntaggedValue::Range(Box::new(RangeValue {
        from: small(2),
        from_inclusive: true,
        to: small(5),
        to_inclusive: true,
    }))
    .into_untagged_value();
    scope.add_var("$r".to_owned(), range);
    let call = call_with(vec![var("$r")]);
    let out = drain(Echo.run(args_for(call, ValueStream::Empty), &scope).unwrap());
    let got: Vec<i64> = out
        .iter()
        .map(|v| match &v.value {
            UntaggedValue::SmallInt(n) => *n,
            other => panic!("expected an integer, got {:?}", other),
        })
        .collect();
    assert_eq!(got, vec![2, 3, 4, 5]);
}

#[test]
fn echo_range_descends_when_start_is_greater() {
    let mut scope = Scope::basic();
    let range = UntaggedValue::Range(Box::new(RangeValue {
        from: small(3),
        from_inclusive: true,
        to: small(1),
        to_inclusive: true,
    }))
    .into_untagged_value();
    scope.add_var("$r".to_owned(), range);
    let call = call_with(vec![var("$r")]);
    let out = drain(Echo.run(args_for(call, ValueStream::Empty), &scope).unwrap());
    let got: Vec<i64> = out
        .iter()
        .map(|v| match &v.value {
            UntaggedValue::SmallInt(n) => *n,
            other => panic!("expected an integer, got {:?}", other),
        })
        .collect();
    assert_eq!(got, vec![3, 2, 1]);
}

#[test]
fn str_collect_joins_text_forms() {
    let input = ValueStream::from_vec(vec![text("a"), text("b"), small(3)]);
    let call = Call { positional: None, named: None, span: Span::new(0, 0) };
    let out = drain(StrCollect.run(args_for(call, input), &Scope::basic()).unwrap());
    assert_eq!(out.len(), 1);
    assert_eq!(out[0].as_string().unwrap(), "ab3");
}

#[test]
fn build_string_concatenates_two_arguments() {
    let scope = Scope::basic();
    let call = call_with(vec![lit_text("foo"), lit_int(3)]);
    let out = drain(BuildString.run(args_for(call, ValueStream::Empty), &scope).unwrap());
    assert_eq!(out.len(), 1);
    assert_eq!(out[0].as_string().unwrap(), "foo3");
}

#[test]
fn str_to_int_parses_decimal_binary_and_hex() {
    let sp = Span::new(0, 0);
    let v = action(&text("255"), sp, 10).unwrap();
    assert_eq!(v.as_string().unwrap(), "255");
    let b = action(&text("0b1101"), sp, 10).unwrap();
    assert_eq!(b.as_string().unwrap(), "13");
    let h = action(&text("0xFF"), sp, 10).unwrap();
    assert_eq!(h.as_string().unwrap(), "255");
    let trimmed = action(&text("  42  "), sp, 10).unwrap();
    assert_eq!(trimmed.as_string().unwrap(), "42");
    let neg = action(&text("-19"), sp, 10).unwrap();
    assert_eq!(neg.as_string().unwrap(), "-19");
}

#[test]
fn str_to_int_rejects_junk_and_non_strings() {
    let sp = Span::new(0, 0);
    match action(&text("pear"), sp, 10) {
        Err(ShellError::LabeledError { msg, .. }) => assert_eq!(msg, "could not parse as int"),
        other => panic!("expected a labeled error, got {:?}", other),
    }
    match action(&small(5), sp, 10) {
        Err(ShellError::LabeledError { msg, label, .. }) => {
            assert_eq!(msg, "value is not string");
            assert_eq!(label, "got integer");
        },
        other => panic!("expected a labeled error, got {:?}", other),
    }
}

#[test]
fn str_to_int_command_converts_a_stream() {
    let input = ValueStream::from_vec(vec![text("7"), text("11")]);
    let call = Call { positional: None, named: None, span: Span::new(0, 0) };
    let out = drain(StrToInt.run(args_for(call, input), &Scope::basic()).unwrap());
    assert_eq!(out[0].as_string().unwrap(), "7");
    assert_eq!(out[1].as_string().unwrap(), "11");
}

#[test]
fn char_command_and_name_table() {
    let call = Call { positional: None, named: None, span: Span::new(0, 0) };
    let out = drain(
        Char.run(args_for(call, ValueStream::Empty), &Scope::basic()).unwrap(),
    );
    assert_eq!(out[0].as_string().unwrap(), "\n");
    assert_eq!(str_to_character("newline").unwrap(), "\n");
    assert_eq!(str_to_character("hamburger").unwrap(), "\u{2261}");
    assert_eq!(str_to_character("sun").unwrap(), "\u{2600}\u{fe0f}");
    assert!(str_to_character("no_such_name").is_none());
}

#[test]
fn unicode_characters_decode_from_hex() {
    let tag = Tag::unknown();
    assert_eq!(string_to_unicode_char("1f378", &tag).unwrap(), '\u{1f378}');
    assert_eq!(string_to_unicode_char("41", &tag).unwrap(), 'A');
    assert!(string_to_unicode_char("zz", &tag).is_err());
    assert!(string_to_unicode_char("d800", &tag).is_err());
}

#[test]
fn open_command_validates_its_path_argument() {
    let args = vec![text("notes.txt")];
    assert_eq!(OpenCommand.file_path(&args).unwrap(), "notes.txt");
    let bad = vec![small(3)];
    assert!(OpenCommand.file_path(&bad).is_none());
    let chunk = OpenCommand.chunk_to_value("line".to_owned());
    assert_eq!(chunk.as_string().unwrap(), "line");
}

#[test]
fn switch_presence_is_reported() {
    let call = Call {
        positional: None,
        named: Some(vec![
            ("numbered".to_owned(), NamedValue::PresentSwitch(Span::new(0, 0))),
            ("quiet".to_owned(), NamedValue::AbsentSwitch),
        ]),
        span: Span::new(0, 0),
    };
    let info = UnevaluatedCallInfo { args: call, name_tag: Tag::unknown() };
    assert!(info.switch_present("numbered"));
    assert!(!info.switch_present("quiet"));
    assert!(!info.switch_present("other"));
}

#[test]
fn blocks_capture_their_defining_scope() {
    let ctx = EvaluationContext::basic();
    let mut scope = Scope::basic();
    scope.add_var("$x".to_owned(), small(5));
    let blk = evaluate_baseline_expr(&block_of(&[], var("$x")), &ctx, &scope).unwrap();
    let captured: CapturedBlock = match blk.value {
        UntaggedValue::Block(b) => *b,
        other => panic!("expected a block value, got {:?}", other),
    };
    assert_eq!(captured.captured.len(), 1);
    assert_eq!(captured.captured[0].0, "$x");
    assert!(captured.captured[0].1.same_value(&small(5)));
}

#[test]
fn str_to_int_accepts_interior_underscores_only() {
    let sp = Span::new(0, 0);
    let ok = action(&text("1_000"), sp, 10).unwrap();
    assert_eq!(ok.as_string().unwrap(), "1000");
    // a leading underscore in the digit body is rejected
    assert!(action(&text("0x_FF"), sp, 10).is_err());
    assert!(action(&text(""), sp, 10).is_err());
}

#[test]
fn str_to_int_strips_a_repeated_prefix() {
    let sp = Span::new(0, 0);
    let v = action(&text("0b0b101"), sp, 10).unwrap();
    assert_eq!(v.as_string().unwrap(), "5");
}

#[test]
fn shape_errors_point_at_the_offending_argument() {
    let mut scope = Scope::basic();
    let bad = SpannedExpression {
        expr: Expression::Literal(Literal::Int(1)),
        span: Span::new(7, 9),
    };
    let call = call_with(vec![bad, block_of(&[], lit_text("A")), block_of(&[], lit_text("B"))]);
    match If.run(args_for(call, ValueStream::Empty), &mut scope) {
        Err(ShellError::LabeledError { msg, span, .. }) => {
            assert_eq!(msg, "Expected a block");
            assert_eq!(span, Span::new(7, 9));
        },
        other => panic!("expected a labeled error, got {:?}", other.err()),
    }
}

#[test]
fn str_to_int_results_carry_the_given_span() {
    let sp = Span::new(3, 6);
    let v = action(&text("21"), sp, 10).unwrap();
    assert_eq!(v.tag.span, sp);
}
