use crate::par_iter_adapter::{apply_seq, PartitionedParallelIterator, Transform};
use crate::stream::{contains_out, fin_seq, sum_of, where_out, StreamM, ValueStream};
use crate::value::{int_val, tbl_view, val_view, UntaggedValue, ValV, Value};
use vstd::prelude::*;

verus! {

/// The unending counting source: 0, 1, 2, ... with promotion past the
/// fixed width.
pub struct CountCommand;

impl CountCommand {
    pub fn start(&self, input: ValueStream) -> (r: ValueStream)
        ensures
            r.wf(),
            r.model() == StreamM::Counting(0),
    {
        let r = ValueStream::Count { current: UntaggedValue::SmallInt(0).into_untagged_value() };
        r
    }
}

/// Sums the whole upstream into a single element under the coercion ladder.
pub struct SumCommand;

impl SumCommand {
    pub fn start(&self, input: ValueStream) -> (r: ValueStream)
        requires
            input.wf(),
            input.model() is Fin,
        ensures
            r.wf(),
            r.model() == match sum_of(fin_seq(input.model())) {
                Some(v) => StreamM::Fin(seq![v]),
                None => StreamM::Dead,
            },
    {
        ValueStream::Sum { upstream: Box::new(input), done: false }
    }
}

/// At most the first `n` upstream elements, where `n` is the first
/// argument; a missing or non-integer count takes nothing.
pub struct TakeCommand;

impl TakeCommand {
    pub fn start(&self, args: Vec<Value>, input: ValueStream) -> (r: ValueStream)
        requires
            args@.len() >= 1,
            input.wf(),
        ensures
            r.wf(),
            r == (ValueStream::Take {
                upstream: Box::new(input),
                remaining: match val_view(args@[0]) {
                    ValV::Small(n) => n as i64,
                    _ => 0,
                },
            }),
    {
        let remaining: i64 = match &args[0].value {
            UntaggedValue::SmallInt(n) => *n,
            _ => 0,
        };
        ValueStream::Take { upstream: Box::new(input), remaining }
    }
}

/// The upstream, then the first argument as one extra element.
pub struct AppendCommand;

impl AppendCommand {
    pub fn start(&self, args: Vec<Value>, input: ValueStream) -> (r: ValueStream)
        requires
            args@.len() >= 1,
            input.wf(),
        ensures
            r.wf(),
            input.model() is Fin ==> r.model() == StreamM::Fin(
                fin_seq(input.model()).push(val_view(args@[0])),
            ),
            input.model() is Counting ==> r.model() == input.model(),
    {
        let mut args = args;
        let item = args.remove(0);
        ValueStream::Append { upstream: Box::new(input), item: Some(item) }
    }
}

/// The first argument as one extra element, then the upstream.
pub struct PrependCommand;

impl PrependCommand {
    pub fn start(&self, args: Vec<Value>, input: ValueStream) -> (r: ValueStream)
        requires
            args@.len() >= 1,
            input.wf(),
        ensures
            r.wf(),
            input.model() is Fin ==> r.model() == StreamM::Fin(
                seq![val_view(args@[0])] + fin_seq(input.model()),
            ),
    {
        let mut args = args;
        let item = args.remove(0);
        ValueStream::Prepend { item: Some(item), upstream: Box::new(input) }
    }
}

/// The number of upstream elements, as a single arbitrary-precision
/// integer.
pub struct LengthCommand;

impl LengthCommand {
    pub fn start(&self, input: ValueStream) -> (r: ValueStream)
        requires
            input.wf(),
            input.model() is Fin,
        ensures
            r.wf(),
            r.model() == StreamM::Fin(seq![ValV::Big(fin_seq(input.model()).len() as int)]),
    {
        ValueStream::Length { upstream: Box::new(input), done: false }
    }
}

/// Keeps exactly the upstream elements that the threshold argument is
/// strictly less than, in upstream order.
pub struct WhereCommand;

impl WhereCommand {
    pub fn start(&self, args: Vec<Value>, input: ValueStream) -> (r: ValueStream)
        requires
            args@.len() >= 1,
            input.wf(),
            input.model() is Fin,
        ensures
            r.wf(),
            r.model() == StreamM::Fin(where_out(val_view(args@[0]), fin_seq(input.model()))),
    {
        let mut args = args;
        let pred = args.remove(0);
        ValueStream::Where { pred, upstream: Box::new(input) }
    }
}

/// The first upstream element structurally equal to the argument, or
/// nothing.
pub struct ContainsCommand;

impl ContainsCommand {
    pub fn start(&self, args: Vec<Value>, input: ValueStream) -> (r: ValueStream)
        requires
            args@.len() >= 1,
            input.wf(),
            input.model() is Fin,
        ensures
            r.wf(),
            r.model() == StreamM::Fin(contains_out(val_view(args@[0]), fin_seq(input.model()))),
    {
        let mut args = args;
        let item = args.remove(0);
        ValueStream::Contains { item, upstream: Box::new(input), done: false }
    }
}

/// Each string's length in bytes; other values map to zero.
pub struct StrLengthCommand;

impl StrLengthCommand {
    pub fn start(&self, input: ValueStream) -> (r: ValueStream)
        requires
            input.wf(),
        ensures
            r.wf(),
            r == (ValueStream::StrLength { upstream: Box::new(input) }),
    {
        ValueStream::StrLength { upstream: Box::new(input) }
    }
}

/// Prints every element as it passes through, unchanged.
pub struct InspectCommand;

impl InspectCommand {
    pub fn start(&self, input: ValueStream) -> (r: ValueStream)
        requires
            input.wf(),
        ensures
            r.wf(),
            r.model() == input.model(),
    {
        ValueStream::Inspect { upstream: Box::new(input) }
    }
}

/// Whether the batching arguments size a working pool: two positive
/// fixed-width integers.
pub open spec fn par_each_sized(args: Seq<Value>) -> bool {
    args.len() >= 2 && (val_view(args[0]) matches ValV::Small(p) && p > 0) && (val_view(
        args[1],
    ) matches ValV::Small(w) && w > 0)
}

/// Adds one hundred to every fixed-width integer element in parallel,
/// promoting on overflow and passing every other element through unchanged,
/// preserving upstream order. The first two arguments size the batches:
/// elements per worker, then number of workers; a missing, non-integer or
/// non-positive parameter yields the empty stream with no work attempted.
pub struct ParEachCommand;

impl ParEachCommand {
    pub fn start(&self, args: Vec<Value>, input: ValueStream) -> (r: ValueStream)
        requires
            input.wf(),
            input.model() is Fin,
        ensures
            r.wf(),
            par_each_sized(args@) ==> r.model() == StreamM::Fin(
                apply_seq(Transform::AddToInts(100), fin_seq(input.model())),
            ),
            !par_each_sized(args@) ==> r == ValueStream::Empty,
    {
        if args.len() < 2 {
            return ValueStream::Empty;
        }
        let per: i64 = match &args[0].value {
            UntaggedValue::SmallInt(n) => *n,
            _ => 0,
        };
        let workers: i64 = match &args[1].value {
            UntaggedValue::SmallInt(n) => *n,
            _ => 0,
        };
        if per <= 0 || workers <= 0 {
            return ValueStream::Empty;
        }
        let per_usize: usize = if per as u64 > usize::MAX as u64 {
            usize::MAX
        } else {
            per as usize
        };
        let workers_usize: usize = if workers as u64 > usize::MAX as u64 {
            usize::MAX
        } else {
            workers as usize
        };
        proof {
            assert(per_usize as int * workers_usize as int > 0) by (nonlinear_arith)
                requires
                    per_usize as int >= 1,
                    workers_usize as int >= 1,
            ;
        }
        let p = PartitionedParallelIterator::new(
            Transform::AddToInts(100),
            per_usize,
            workers_usize,
            input,
        );
        ValueStream::ParEach(p)
    }
}

} // verus!

pub mod build_string;
pub mod char_;
pub mod def;
pub mod each;
pub mod echo;
pub mod if_;
pub mod let_;
pub mod open;
pub mod str_collect;
pub mod str_to_int;
