use enginep::commands::{
    AppendCommand, ContainsCommand, CountCommand, InspectCommand, LengthCommand, ParEachCommand,
    PrependCommand, StrLengthCommand, SumCommand, TakeCommand, WhereCommand,
};
use enginep::par_iter_adapter::{PartitionedParallelIterator, Transform};
use enginep::shared::InterruptHandle;
use enginep::stream::ValueStream;
use enginep::tag::Tag;
use enginep::value::{UntaggedValue, Value};

fn small(n: i64) -> Value {
    UntaggedValue::SmallInt(n).into_untagged_value()
}

fn text(s: &str) -> Value {
    UntaggedValue::Str(s.to_owned()).into_value(Tag::unknown())
}

fn smalls(ns: &[i64]) -> Vec<Value> {
    ns.iter().map(|n| small(*n)).collect()
}

fn drain(mut s: ValueStream) -> Vec<Value> {
    let mut out = Vec::new();
    loop {
        match s.next() {
            Some(v) => out.push(v),
            None => return out,
        }
    }
}

fn as_i64s(vs: &[Value]) -> Vec<i64> {
    vs.iter()
        .map(|v| match &v.value {
            UntaggedValue::SmallInt(n) => *n,
            other => panic!("expected a fixed-width integer, got {:?}", other),
        })
        .collect()
}

#[test]
fn counting_source_take_five() {
    let count = CountCommand.start(ValueStream::Empty);
    let taken = TakeCommand.start(vec![small(5)], count);
    let out = drain(taken);
    assert_eq!(as_i64s(&out), vec![0, 1, 2, 3, 4]);
}

#[test]
fn take_zero_and_negative_take_nothing() {
    let c1 = CountCommand.start(ValueStream::Empty);
    assert_eq!(drain(TakeCommand.start(vec![small(0)], c1)).len(), 0);
    let c2 = CountCommand.start(ValueStream::Empty);
    assert_eq!(drain(TakeCommand.start(vec![small(-3)], c2)).len(), 0);
}

#[test]
fn append_and_prepend_preserve_order() {
    let appended = AppendCommand.start(
        vec![small(555)],
        ValueStream::from_vec(smalls(&[1, 2, 3])),
    );
    assert_eq!(as_i64s(&drain(appended)), vec![1, 2, 3, 555]);
    let prepended = PrependCommand.start(
        vec![small(777)],
        ValueStream::from_vec(smalls(&[1, 2, 3])),
    );
    assert_eq!(as_i64s(&drain(prepended)), vec![777, 1, 2, 3]);
}

#[test]
fn sum_of_one_two_three_is_six() {
    let summed = SumCommand.start(ValueStream::from_vec(smalls(&[1, 2, 3])));
    let out = drain(summed);
    assert_eq!(out.len(), 1);
    assert!(out[0].same_value(&small(6)));
}

#[test]
fn sum_promotes_past_the_fixed_width() {
    let summed = SumCommand.start(ValueStream::from_vec(smalls(&[i64::MAX, 1])));
    let out = drain(summed);
    assert_eq!(out.len(), 1);
    // the exact mathematical sum, now arbitrary-precision
    assert_eq!(out[0].as_string().unwrap(), "9223372036854775808");
    assert!(matches!(out[0].value, UntaggedValue::BigInt(_)));
}

#[test]
fn overflow_promotion_in_value_addition() {
    let a = small(i64::MAX);
    let one = small(1);
    let sum = a.add(&one);
    assert!(matches!(sum.value, UntaggedValue::BigInt(_)));
    assert_eq!(sum.as_string().unwrap(), "9223372036854775808");
    let low = small(i64::MIN);
    let neg = small(-1);
    let under = low.add(&neg);
    assert_eq!(under.as_string().unwrap(), "-9223372036854775809");
    let plain = small(2).add(&small(3));
    assert!(plain.same_value(&small(5)));
}

#[test]
fn coercion_is_symmetric() {
    let big = small(7).add(&small(i64::MAX)); // an arbitrary-precision value
    let s = small(4);
    let left = s.add(&big);
    let right = big.add(&s);
    assert!(left.same_value(&right));
    assert_eq!(left.as_string().unwrap(), "9223372036854775818");
}

#[test]
fn mismatched_addition_is_an_explicit_error() {
    let sum = text("pear").add(&small(3));
    assert!(matches!(sum.value, UntaggedValue::Error(_)));
}

#[test]
fn length_counts_the_whole_upstream() {
    let out = drain(LengthCommand.start(ValueStream::from_vec(smalls(&[4, 5, 6, 7]))));
    assert_eq!(out.len(), 1);
    assert_eq!(out[0].as_string().unwrap(), "4");
    let empty = drain(LengthCommand.start(ValueStream::Empty));
    assert_eq!(empty[0].as_string().unwrap(), "0");
}

#[test]
fn where_keeps_elements_greater_than_the_threshold() {
    let out = drain(WhereCommand.start(
        vec![small(7)],
        ValueStream::from_vec(smalls(&[3, 9, 7, 12, 1])),
    ));
    assert_eq!(as_i64s(&out), vec![9, 12]);
}

#[test]
fn where_mismatched_threshold_keeps_nothing() {
    let out = drain(WhereCommand.start(
        vec![text("pear")],
        ValueStream::from_vec(smalls(&[1, 2])),
    ));
    assert_eq!(out.len(), 0);
}

#[test]
fn contains_finds_the_first_equal_element() {
    let out = drain(ContainsCommand.start(
        vec![small(7)],
        ValueStream::from_vec(smalls(&[3, 7, 7, 9])),
    ));
    assert_eq!(as_i64s(&out), vec![7]);
    let none = drain(ContainsCommand.start(
        vec![small(100)],
        ValueStream::from_vec(smalls(&[3, 7])),
    ));
    assert_eq!(none.len(), 0);
}

#[test]
fn equality_is_variant_aware() {
    let promoted = small(1).add(&small(i64::MAX)); // arbitrary-precision
    let fixed = small(5);
    assert!(!promoted.same_value(&fixed));
    assert!(small(5).same_value(&small(5)));
    assert!(!small(5).same_value(&text("5")));
}

#[test]
fn str_length_measures_bytes() {
    let input = vec![text("hello"), small(3), text(""), text("caf\u{e9}")];
    let out = drain(StrLengthCommand.start(ValueStream::from_vec(input)));
    assert_eq!(out[0].as_string().unwrap(), "5");
    assert!(out[1].same_value(&small(0)));
    assert_eq!(out[2].as_string().unwrap(), "0");
    // four characters, five bytes: the accented letter encodes as two
    assert_eq!(out[3].as_string().unwrap(), "5");
}

#[test]
fn inspect_passes_elements_through() {
    let out = drain(InspectCommand.start(ValueStream::from_vec(smalls(&[8, 9]))));
    assert_eq!(as_i64s(&out), vec![8, 9]);
}

#[test]
fn parallel_iterator_preserves_sequential_order() {
    let input: Vec<Value> = (0..103).map(small).collect();
    let mut p = PartitionedParallelIterator::new(
        Transform::AddSmall(100),
        4,
        3,
        ValueStream::from_vec(input),
    );
    let mut got = Vec::new();
    while let Some(v) = p.next() {
        got.push(v);
    }
    let want: Vec<i64> = (0..103).map(|n| n + 100).collect();
    assert_eq!(as_i64s(&got), want);
}

#[test]
fn parallel_iterator_drops_filtered_elements_in_order() {
    let input: Vec<Value> = (0..50).map(small).collect();
    let mut p = PartitionedParallelIterator::new(
        Transform::KeepGreater(40),
        7,
        2,
        ValueStream::from_vec(input),
    );
    let mut got = Vec::new();
    while let Some(v) = p.next() {
        got.push(v);
    }
    assert_eq!(as_i64s(&got), vec![41, 42, 43, 44, 45, 46, 47, 48, 49]);
}

#[test]
fn parallel_iterator_batches_terminate() {
    // seven elements with a batch bound of four: two fills, then exhaustion
    let input: Vec<Value> = (0..7).map(small).collect();
    let mut p = PartitionedParallelIterator::new(
        Transform::Keep,
        2,
        2,
        ValueStream::from_vec(input),
    );
    let mut n = 0;
    while let Some(_) = p.next() {
        n += 1;
    }
    assert_eq!(n, 7);
    assert!(p.next().is_none());
    assert!(p.next().is_none());
}

#[test]
fn parallel_iterator_zero_sizing_is_immediately_exhausted() {
    let input: Vec<Value> = (0..5).map(small).collect();
    let mut p = PartitionedParallelIterator::new(
        Transform::Keep,
        0,
        4,
        ValueStream::from_vec(input),
    );
    assert!(p.next().is_none());
}

#[test]
fn par_each_command_adds_one_hundred_to_integers() {
    let out = drain(ParEachCommand.start(
        vec![small(10), small(12)],
        ValueStream::from_vec(smalls(&[1, 2, 3])),
    ));
    assert_eq!(as_i64s(&out), vec![101, 102, 103]);
    let bad = drain(ParEachCommand.start(
        vec![text("x")],
        ValueStream::from_vec(smalls(&[1])),
    ));
    assert_eq!(bad.len(), 0);
}

#[test]
fn interruptible_stops_once_the_signal_is_set() {
    let signal = InterruptHandle::new();
    let mut s = ValueStream::from_vec(smalls(&[1, 2, 3])).interruptible(signal.share());
    let first = s.next().expect("one element before the interrupt");
    assert!(first.same_value(&small(1)));
    signal.trigger();
    assert!(s.next().is_none());
    assert!(s.next().is_none());
}

#[test]
fn ordering_mismatch_is_the_false_sentinel() {
    assert!(!text("pear").lt(&small(3)));
    assert!(!small(3).lt(&text("pear")));
    assert!(small(3).lt(&small(4)));
    assert!(!small(4).lt(&small(4)));
}

#[test]
fn structural_equality_covers_every_variant() {
    let nothing = UntaggedValue::Nothing.into_untagged_value();
    assert!(nothing.same_value(&UntaggedValue::Nothing.into_untagged_value()));
    let bytes = UntaggedValue::Binary(vec![1, 2, 3]).into_untagged_value();
    assert!(bytes.same_value(&UntaggedValue::Binary(vec![1, 2, 3]).into_untagged_value()));
    assert!(!bytes.same_value(&UntaggedValue::Binary(vec![1, 2]).into_untagged_value()));
    let dur = UntaggedValue::Duration(90).into_untagged_value();
    assert!(dur.same_value(&UntaggedValue::Duration(90).into_untagged_value()));
    assert!(!dur.same_value(&UntaggedValue::Filesize(90).into_untagged_value()));
    let date = UntaggedValue::Date(1000).into_untagged_value();
    assert!(!date.same_value(&UntaggedValue::Date(1001).into_untagged_value()));
    let path = UntaggedValue::FilePath("a/b".to_owned()).into_untagged_value();
    assert!(!path.same_value(&text("a/b")));
    let table = UntaggedValue::Table(vec![small(1), text("x")]).into_untagged_value();
    assert!(table.same_value(&table.duplicate()));
}

#[test]
fn par_each_passes_non_fixed_width_values_through() {
    let promoted = small(1).add(&small(i64::MAX)); // arbitrary-precision
    let expected = small(1).add(&small(i64::MAX));
    let input = vec![small(1), promoted, text("pear"), small(2)];
    let out = drain(ParEachCommand.start(
        vec![small(2), small(2)],
        ValueStream::from_vec(input),
    ));
    assert_eq!(out.len(), 4);
    assert!(out[0].same_value(&small(101)));
    assert!(out[1].same_value(&expected));
    assert!(out[2].same_value(&text("pear")));
    assert!(out[3].same_value(&small(102)));
}

#[test]
fn sum_over_a_mismatched_upstream_yields_the_coercion_error() {
    let summed = SumCommand.start(ValueStream::from_vec(vec![small(1), text("pear"), small(2)]));
    let out = drain(summed);
    assert_eq!(out.len(), 1);
    match &out[0].value {
        UntaggedValue::Error(enginep::errors::ShellError::CoercionError { left, right, .. }) => {
            assert_eq!(left, "integer");
            assert_eq!(right, "string");
        }
        other => panic!("expected a coercion error element, got {:?}", other),
    }
}
