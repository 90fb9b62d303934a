use crate::bigint::{big_from_i64, big_from_usize};
use crate::shared::InterruptHandle;
use crate::value::{int_val, num_of, spec_add, spec_lt, tbl_view, uv_view, val_view, UntaggedValue,
    ValV, Value};
use vstd::string::StrSliceExecFns;
use std::io::Write;
use vstd::prelude::*;

verus! {

/// What a stream will still produce.
///
/// `Fin(s)` promises exactly the elements of `s`, in order, then exhaustion.
/// `Counting(n)` promises the unending ascending count `n, n+1, ...`, each
/// delivered as a fixed-width integer while it fits and as an
/// arbitrary-precision integer afterwards. `Dead` promises nothing: the
/// remaining output depends on something outside the model (a shared
/// cancellation flag, or a combination this model does not represent).
pub enum StreamM {
    Fin(Seq<ValV>),
    Counting(int),
    Dead,
}

/// The sequence of a finite stream model.
pub open spec fn fin_seq(m: StreamM) -> Seq<ValV> {
    match m {
        StreamM::Fin(s) => s,
        _ => Seq::empty(),
    }
}

/// Folding the coercion-ladder addition over a sequence, left to right.
/// `None` marks a fold that hits a type mismatch.
pub open spec fn fold_add(acc: ValV, s: Seq<ValV>) -> Option<ValV>
    decreases s.len(),
{
    if s.len() == 0 {
        Some(acc)
    } else {
        match spec_add(acc, s[0]) {
            Some(v) => fold_add(v, s.drop_first()),
            None => None,
        }
    }
}

/// The sum of a sequence of values, starting from the fixed-width zero.
pub open spec fn sum_of(s: Seq<ValV>) -> Option<ValV> {
    fold_add(ValV::Small(0), s)
}

/// The two operand type names at the first mismatching accumulation step of
/// a fold, where the fold has one.
pub open spec fn fold_mismatch(acc: ValV, s: Seq<ValV>) -> Option<(Seq<char>, Seq<char>)>
    decreases s.len(),
{
    if s.len() == 0 {
        None
    } else {
        match spec_add(acc, s[0]) {
            Some(v) => fold_mismatch(v, s.drop_first()),
            None => Some((crate::value::spec_kind_name(acc), crate::value::spec_kind_name(s[0]))),
        }
    }
}

/// Whether a value is the coercion error naming the two given operand type
/// names.
pub open spec fn is_coercion_error_with(v: ValV, l: Seq<char>, rk: Seq<char>) -> bool {
    v matches ValV::Error(e) && (e matches crate::errors::ErrV::Coercion { left, right, .. }
        && left == l && right == rk)
}

/// The elements of `s` that the threshold is strictly less than, in order.
pub open spec fn where_out(pred: ValV, s: Seq<ValV>) -> Seq<ValV>
    decreases s.len(),
{
    if s.len() == 0 {
        Seq::empty()
    } else if spec_lt(pred, s[0]) {
        seq![s[0]] + where_out(pred, s.drop_first())
    } else {
        where_out(pred, s.drop_first())
    }
}

/// The first element of `s` equal to `item`, as a sequence of one, or the
/// empty sequence.
pub open spec fn contains_out(item: ValV, s: Seq<ValV>) -> Seq<ValV>
    decreases s.len(),
{
    if s.len() == 0 {
        Seq::empty()
    } else if s[0] == item {
        seq![item]
    } else {
        contains_out(item, s.drop_first())
    }
}

/// The byte length of a string's UTF-8 encoding, as the platform byte
/// count reports it.
pub open spec fn str_byte_len(s: Seq<char>) -> usize {
    vstd::utf8::encode_utf8(s).len() as usize
}

/// What the string-length stage makes of one element: the byte length of a
/// string's UTF-8 encoding, and the fixed-width zero for every other
/// variant.
pub open spec fn strlen_map(v: ValV) -> ValV {
    match v {
        ValV::Str(s) => ValV::Big(str_byte_len(s) as int),
        _ => ValV::Small(0),
    }
}

/// How many elements a range from `c` to `e` still holds.
pub open spec fn range_count(c: int, e: int, up: bool, incl: bool) -> int {
    if up {
        if incl {
            e - c + 1
        } else {
            e - c
        }
    } else {
        if incl {
            c - e + 1
        } else {
            c - e
        }
    }
}

/// The values a numeric range stage still produces: an arithmetic sequence
/// stepping by one towards the end bound. An element keeps the
/// representation its start had: a fixed-width start promotes exactly when
/// the count leaves the fixed width, an arbitrary-precision start stays
/// arbitrary-precision.
pub open spec fn range_seq(cv: ValV, e: int, up: bool, incl: bool) -> Seq<ValV> {
    match num_of(cv) {
        Some(c) => {
            let n = range_count(c, e, up, incl);
            if n <= 0 {
                Seq::empty()
            } else {
                Seq::new(
                    n as nat,
                    |i: int|
                        {
                            let k = if up {
                                c + i
                            } else {
                                c - i
                            };
                            if cv is Small {
                                int_val(k)
                            } else {
                                ValV::Big(k)
                            }
                        },
                )
            }
        },
        None => Seq::empty(),
    }
}

/// A pull-based lazy sequence of values: the closed set of stream stages a
/// pipeline is composed of. Each stage pulls from its upstream only when it
/// is itself pulled.
pub enum ValueStream {
    /// Produces nothing.
    Empty,
    /// Produces the elements of a materialized sequence, in order.
    Source { items: Vec<Value>, pos: usize },
    /// The unending counting source.
    Count { current: Value },
    /// At most `remaining` further elements of the upstream.
    Take { upstream: Box<ValueStream>, remaining: i64 },
    /// The upstream, then one extra element.
    Append { upstream: Box<ValueStream>, item: Option<Value> },
    /// One extra element, then the upstream.
    Prepend { item: Option<Value>, upstream: Box<ValueStream> },
    /// One stream, then another.
    Chain { first: Box<ValueStream>, second: Box<ValueStream> },
    /// Consumes the whole (finite) upstream and produces its single
    /// accumulated sum under the coercion ladder.
    Sum { upstream: Box<ValueStream>, done: bool },
    /// Consumes the whole (finite) upstream and produces its length as an
    /// arbitrary-precision integer.
    Length { upstream: Box<ValueStream>, done: bool },
    /// Keeps exactly the upstream elements that the threshold value is less
    /// than, in order.
    Where { pred: Value, upstream: Box<ValueStream> },
    /// Produces the first upstream element equal to `item`, then nothing.
    Contains { item: Value, upstream: Box<ValueStream>, done: bool },
    /// Maps each string to its byte length and every other value to the
    /// fixed-width integer zero.
    StrLength { upstream: Box<ValueStream> },
    /// Converts each upstream string to an arbitrary-precision integer;
    /// conversion failures travel as `Error`-variant values reported at the
    /// stage's own tag.
    ToInt { upstream: Box<ValueStream>, radix: u32, tag: crate::tag::Tag },
    /// Counts from one bound towards the other, one step per pull; bounds
    /// that are not integers produce a single range error.
    RangeIter {
        curr: Value,
        end: Value,
        moves_up: bool,
        end_inclusive: bool,
        done: bool,
        tag: crate::tag::Tag,
    },
    /// Runs a block once per upstream element, flattening the per-row
    /// outputs in upstream order; a failing row becomes a single
    /// `Error`-variant element instead of aborting the iteration.
    Rows {
        block: Box<crate::value::CapturedBlock>,
        ctx: crate::evaluate::evaluation_context::EvaluationContext,
        base: crate::scope::Scope,
        upstream: Box<ValueStream>,
        pending: Vec<Value>,
        ppos: usize,
    },
    /// Batches the upstream and transforms it on a worker pool, preserving
    /// upstream order.
    ParEach(crate::par_iter_adapter::PartitionedParallelIterator),
    /// Prints each element as it passes through, unchanged.
    Inspect { upstream: Box<ValueStream> },
    /// Stops early once the shared cancellation signal is set; an element
    /// already pulled is still delivered.
    Interruptible { upstream: Box<ValueStream>, signal: InterruptHandle, tripped: bool },
}

impl ValueStream {
    /// The nesting depth of the stage tree; pulls only ever recurse into
    /// strictly shallower stages.
    pub open spec fn height(self) -> nat
        decreases self,
    {
        match self {
            ValueStream::Empty => 0,
            ValueStream::Source { .. } => 0,
            ValueStream::Count { .. } => 0,
            ValueStream::Take { upstream, .. } => upstream.height() + 1,
            ValueStream::Append { upstream, .. } => upstream.height() + 1,
            ValueStream::Prepend { upstream, .. } => upstream.height() + 1,
            ValueStream::Chain { first, second } => 1 + if first.height() >= second.height() {
                first.height()
            } else {
                second.height()
            },
            ValueStream::Sum { upstream, .. } => upstream.height() + 1,
            ValueStream::Length { upstream, .. } => upstream.height() + 1,
            ValueStream::Where { upstream, .. } => upstream.height() + 1,
            ValueStream::Contains { upstream, .. } => upstream.height() + 1,
            ValueStream::StrLength { upstream } => upstream.height() + 1,
            ValueStream::ToInt { upstream, .. } => upstream.height() + 1,
            ValueStream::RangeIter { .. } => 0,
            ValueStream::Rows { upstream, .. } => upstream.height() + 1,
            ValueStream::ParEach(p) => p.height(),
            ValueStream::Inspect { upstream } => upstream.height() + 1,
            ValueStream::Interruptible { upstream, .. } => upstream.height() + 1,
        }
    }

    /// Structural well-formedness of a stage tree.
    pub open spec fn wf(self) -> bool
        decreases self, 1int,
    {
        match self {
            ValueStream::Empty => true,
            ValueStream::Source { items, pos } => pos <= items@.len(),
            ValueStream::Count { current } => match num_of(val_view(current)) {
                Some(n) => n >= 0 && val_view(current) == int_val(n),
                None => false,
            },
            ValueStream::Take { upstream, .. } => upstream.wf(),
            ValueStream::Append { upstream, .. } => upstream.wf(),
            ValueStream::Prepend { upstream, .. } => upstream.wf(),
            ValueStream::Chain { first, second } => first.wf() && second.wf(),
            ValueStream::Sum { upstream, .. } => upstream.wf() && upstream.model() is Fin,
            ValueStream::Length { upstream, .. } => upstream.wf() && upstream.model() is Fin,
            ValueStream::Where { upstream, .. } => upstream.wf() && upstream.model() is Fin,
            ValueStream::Contains { upstream, .. } => upstream.wf() && upstream.model() is Fin,
            ValueStream::StrLength { upstream } => upstream.wf(),
            ValueStream::ToInt { upstream, radix, .. } => upstream.wf() && 2 <= radix <= 36,
            ValueStream::RangeIter { .. } => true,
            ValueStream::Rows { base, upstream, pending, ppos, .. } => upstream.wf()
                && upstream.model() is Fin && ppos <= pending@.len() && base.depth() > 0,
            ValueStream::ParEach(p) => p.wf(),
            ValueStream::Inspect { upstream } => upstream.wf(),
            ValueStream::Interruptible { upstream, .. } => upstream.wf(),
        }
    }

    /// The remaining output of this stage.
    pub open spec fn model(self) -> StreamM
        decreases self, 1int,
    {
        match self {
            ValueStream::Empty => StreamM::Fin(Seq::empty()),
            ValueStream::Source { items, pos } => StreamM::Fin(tbl_view(items@).skip(pos as int)),
            ValueStream::Count { current } => match num_of(val_view(current)) {
                Some(n) => StreamM::Counting(n),
                None => StreamM::Dead,
            },
            ValueStream::Take { upstream, remaining } => {
                let want: int = if remaining < 0 {
                    0
                } else {
                    remaining as int
                };
                match upstream.model() {
                    StreamM::Fin(s) => StreamM::Fin(
                        s.take(
                            if want <= s.len() {
                                want
                            } else {
                                s.len() as int
                            },
                        ),
                    ),
                    StreamM::Counting(n) => StreamM::Fin(
                        Seq::new(want as nat, |i: int| int_val(n + i)),
                    ),
                    StreamM::Dead => StreamM::Dead,
                }
            },
            ValueStream::Append { upstream, item } => match upstream.model() {
                StreamM::Fin(s) => match item {
                    Some(v) => StreamM::Fin(s.push(val_view(v))),
                    None => StreamM::Fin(s),
                },
                StreamM::Counting(n) => StreamM::Counting(n),
                StreamM::Dead => StreamM::Dead,
            },
            ValueStream::Prepend { item, upstream } => match item {
                Some(v) => match upstream.model() {
                    StreamM::Fin(s) => StreamM::Fin(seq![val_view(v)] + s),
                    _ => StreamM::Dead,
                },
                None => upstream.model(),
            },
            ValueStream::Chain { first, second } => match (first.model(), second.model()) {
                (StreamM::Fin(s), StreamM::Fin(t)) => StreamM::Fin(s + t),
                (StreamM::Counting(n), _) => StreamM::Counting(n),
                _ => StreamM::Dead,
            },
            ValueStream::Sum { upstream, done } => if done {
                StreamM::Fin(Seq::empty())
            } else {
                match upstream.model() {
                    StreamM::Fin(s) => match sum_of(s) {
                        Some(v) => StreamM::Fin(seq![v]),
                        None => StreamM::Dead,
                    },
                    _ => StreamM::Dead,
                }
            },
            ValueStream::Length { upstream, done } => if done {
                StreamM::Fin(Seq::empty())
            } else {
                match upstream.model() {
                    StreamM::Fin(s) => StreamM::Fin(seq![ValV::Big(s.len() as int)]),
                    _ => StreamM::Dead,
                }
            },
            ValueStream::Where { pred, upstream } => match upstream.model() {
                StreamM::Fin(s) => StreamM::Fin(where_out(val_view(pred), s)),
                _ => StreamM::Dead,
            },
            ValueStream::Contains { item, upstream, done } => if done {
                StreamM::Fin(Seq::empty())
            } else {
                match upstream.model() {
                    StreamM::Fin(s) => StreamM::Fin(contains_out(val_view(item), s)),
                    _ => StreamM::Dead,
                }
            },
            ValueStream::StrLength { upstream } => match upstream.model() {
                StreamM::Fin(s) => StreamM::Fin(s.map_values(|v: ValV| strlen_map(v))),
                _ => StreamM::Dead,
            },
            ValueStream::ToInt { upstream, radix, tag } => match upstream.model() {
                StreamM::Fin(s) => StreamM::Fin(
                    s.map_values(
                        |v: ValV| crate::commands::str_to_int::to_int_elem(
                            v,
                            radix as int,
                            tag.span,
                        ),
                    ),
                ),
                _ => StreamM::Dead,
            },
            ValueStream::RangeIter { curr, end, moves_up, end_inclusive, done, tag } => if done {
                StreamM::Fin(Seq::empty())
            } else {
                match (num_of(val_view(curr)), num_of(val_view(end))) {
                    (Some(c), Some(e)) => StreamM::Fin(
                        range_seq(val_view(curr), e, moves_up, end_inclusive),
                    ),
                    _ => StreamM::Fin(
                        seq![
                            ValV::Error(
                                crate::errors::labeled_err(
                                    "Cannot create range"@,
                                    "unsupported range"@,
                                    tag.span,
                                ),
                            ),
                        ],
                    ),
                }
            },
            ValueStream::Rows { block, base, upstream, pending, ppos, .. } => match upstream.model() {
                StreamM::Fin(s) => StreamM::Fin(
                    tbl_view(pending@).skip(ppos as int) + crate::commands::each::rows_out(
                        crate::value::capblock_view(*block),
                        crate::scope::scope_frames(base),
                        crate::scope::capture_of(base),
                        s,
                    ),
                ),
                _ => StreamM::Dead,
            },
            ValueStream::ParEach(p) => p.model(),
            ValueStream::Inspect { upstream } => upstream.model(),
            ValueStream::Interruptible { tripped, .. } => if tripped {
                StreamM::Fin(Seq::empty())
            } else {
                StreamM::Dead
            },
        }
    }
}

/// What one pull promises, given the stage's model before and after: a
/// finite stream delivers exactly its head and keeps exactly its tail, a
/// counting stream delivers the next count, and a `Dead` model promises
/// nothing.
pub open spec fn step_ok(pre: StreamM, post: StreamM, r: Option<Value>) -> bool {
    match pre {
        StreamM::Fin(s) => if s.len() == 0 {
            r is None && post == StreamM::Fin(Seq::<ValV>::empty())
        } else {
            r is Some && val_view(r->Some_0) == s[0] && post == StreamM::Fin(s.drop_first())
        },
        StreamM::Counting(n) => r is Some && val_view(r->Some_0) == int_val(n) && post
            == StreamM::Counting(n + 1),
        StreamM::Dead => true,
    }
}

/// What one pull of a cancellation stage promises: before the signal is
/// observed it behaves as its upstream, and from the first set observation
/// on it is exhausted without pulling upstream again.
pub open spec fn interrupt_step(pre: ValueStream, post: ValueStream, r: Option<Value>) -> bool {
    match pre {
        ValueStream::Interruptible { upstream: pre_up, tripped: pre_tripped, .. } => match post {
            ValueStream::Interruptible { upstream: post_up, tripped: post_tripped, .. } => {
                if pre_tripped {
                    r is None && post_tripped
                } else {
                    (post_tripped && r is None && post_up.model() == pre_up.model()) || (
                    !post_tripped && step_ok(pre_up.model(), post_up.model(), r))
                }
            },
            _ => false,
        },
        _ => true,
    }
}

/// What one pull of a sum stage promises when the fold hits a type
/// mismatch: the single produced element is the coercion error naming the
/// two mismatched operand types, and the stage is then exhausted. (The
/// error's spans are the mismatching values' own tags, which the tag-free
/// stream model cannot name.)
pub open spec fn sum_mismatch_step(pre: ValueStream, post: ValueStream, r: Option<Value>) -> bool {
    match pre {
        ValueStream::Sum { upstream, done } => {
            if !done && upstream.model() is Fin {
                match fold_mismatch(ValV::Small(0), fin_seq(upstream.model())) {
                    Some((l, rk)) => {
                        &&& r matches Some(v) && is_coercion_error_with(val_view(v), l, rk)
                        &&& post.model() == StreamM::Fin(Seq::<ValV>::empty())
                    },
                    None => true,
                }
            } else {
                true
            }
        },
        _ => true,
    }
}

/// What one pull of a prepend stage still holding its extra element
/// promises, whatever the upstream: the element comes out and the upstream
/// is untouched.
pub open spec fn prepend_step(pre: ValueStream, post: ValueStream, r: Option<Value>) -> bool {
    match pre {
        ValueStream::Prepend { item, upstream } => match item {
            Some(v) => {
                &&& r matches Some(out) && val_view(out) == val_view(v)
                &&& post matches ValueStream::Prepend { item: post_item, upstream: post_up }
                    && post_item is None && post_up.model() == upstream.model()
            },
            None => true,
        },
        _ => true,
    }
}

/// What one pull of a chain stage promises beyond its own model: while the
/// first stream is finite it is served and the second is untouched, and once
/// the first is drained the pull behaves as the second's, whatever the
/// second's model.
pub open spec fn chain_step(pre: ValueStream, post: ValueStream, r: Option<Value>) -> bool {
    match pre {
        ValueStream::Chain { first, second } => match first.model() {
            StreamM::Fin(a) => {
                if a.len() > 0 {
                    &&& r matches Some(v) && val_view(v) == a[0]
                    &&& post matches ValueStream::Chain { first: f2, second: s2 } && f2.model()
                        == StreamM::Fin(a.drop_first()) && s2.model() == second.model()
                } else {
                    post matches ValueStream::Chain { first: f2, second: s2 } && f2.model()
                        == StreamM::Fin(Seq::<ValV>::empty()) && step_ok(
                        second.model(),
                        s2.model(),
                        r,
                    )
                }
            },
            _ => true,
        },
        _ => true,
    }
}

/// Every element a range stage emits — the range error included — carries
/// the stage's own tag.
pub open spec fn range_tag_step(pre: ValueStream, r: Option<Value>) -> bool {
    match pre {
        ValueStream::RangeIter { tag, .. } => match r {
            Some(v) => v.tag@ == tag@,
            None => true,
        },
        _ => true,
    }
}

/// The per-stage refinements one pull satisfies beyond `step_ok`.
pub open spec fn step_extras(pre: ValueStream, post: ValueStream, r: Option<Value>) -> bool {
    &&& sum_mismatch_step(pre, post, r)
    &&& prepend_step(pre, post, r)
    &&& chain_step(pre, post, r)
    &&& range_tag_step(pre, r)
}

/// Relies on `writeln!` to standard output: prints a diagnostic rendering
/// of a value.
#[verifier::external_body]
fn debug_print(v: &Value) {
    let _ = writeln!(std::io::stdout(), "{:?}", v);
}

/// Consumes a finite upstream completely, folding every element into the
/// accumulator with the coercion-ladder addition.
#[verifier::loop_isolation(false)]
fn drain_sum(up: ValueStream, acc: Value) -> (res: (ValueStream, Value))
    requires
        up.wf(),
        up.model() is Fin,
    ensures
        res.0.wf(),
        res.0.model() == StreamM::Fin(Seq::<ValV>::empty()),
        res.0.height() <= up.height(),
        fold_add(val_view(acc), fin_seq(up.model())) is Some ==> fold_add(
            val_view(acc),
            fin_seq(up.model()),
        ) == Some(val_view(res.1)),
        fold_mismatch(val_view(acc), fin_seq(up.model())) matches Some((l, rk))
            ==> is_coercion_error_with(val_view(res.1), l, rk),
    decreases up.height() + 1, 0int,
{
    let ghost g = fold_add(val_view(acc), fin_seq(up.model()));
    let ghost gm = fold_mismatch(val_view(acc), fin_seq(up.model()));
    let ghost h0 = up.height();
    let mut cur = up;
    let mut a = acc;
    loop
        invariant
            cur.wf(),
            cur.model() is Fin,
            cur.height() <= h0,
            g is Some ==> fold_add(val_view(a), fin_seq(cur.model())) == g,
            gm matches Some((l, rk)) ==> (fold_mismatch(val_view(a), fin_seq(cur.model())) == gm)
                || is_coercion_error_with(val_view(a), l, rk),
        decreases fin_seq(cur.model()).len(),
    {
        let ghost rem = fin_seq(cur.model());
        let ghost av = val_view(a);
        let (c2, r) = stream_step(cur);
        cur = c2;
        match r {
            Some(v) => {
                let a2 = a.add(&v);
                proof {
                    if g is Some {
                        assert(fold_add(av, rem) == match spec_add(av, rem[0]) {
                            Some(x) => fold_add(x, rem.drop_first()),
                            None => None::<ValV>,
                        });
                    }
                    if gm is Some {
                        assert(fold_mismatch(av, rem) == match spec_add(av, rem[0]) {
                            Some(x) => fold_mismatch(x, rem.drop_first()),
                            None => Some(
                                (
                                    crate::value::spec_kind_name(av),
                                    crate::value::spec_kind_name(rem[0]),
                                ),
                            ),
                        });
                    }
                }
                a = a2;
            },
            None => {
                proof {
                    if g is Some {
                        assert(fold_add(val_view(a), rem) == Some(val_view(a)));
                    }
                    if gm is Some {
                        assert(fold_mismatch(val_view(a), rem) is None);
                    }
                }
                return (cur, a);
            },
        }
    }
}

/// Consumes a finite upstream completely, counting its elements; the count
/// is kept under the coercion ladder so that it can exceed the fixed width.
#[verifier::loop_isolation(false)]
fn drain_len(up: ValueStream) -> (res: (ValueStream, Value))
    requires
        up.wf(),
        up.model() is Fin,
    ensures
        res.0.wf(),
        res.0.model() == StreamM::Fin(Seq::<ValV>::empty()),
        res.0.height() <= up.height(),
        val_view(res.1) == ValV::Big(fin_seq(up.model()).len() as int),
    decreases up.height() + 1, 0int,
{
    let ghost s0 = fin_seq(up.model());
    let ghost h0 = up.height();
    let mut cur = up;
    let mut a = UntaggedValue::SmallInt(0).into_untagged_value();
    let one = UntaggedValue::SmallInt(1).into_untagged_value();
    loop
        invariant
            cur.wf(),
            cur.model() is Fin,
            cur.height() <= h0,
            val_view(one) == ValV::Small(1),
            fin_seq(cur.model()).len() <= s0.len(),
            val_view(a) == int_val(s0.len() - fin_seq(cur.model()).len()),
        decreases fin_seq(cur.model()).len(),
    {
        let ghost rem = fin_seq(cur.model());
        let (c2, r) = stream_step(cur);
        cur = c2;
        match r {
            Some(_) => {
                let a2 = a.add(&one);
                a = a2;
            },
            None => {
                let out = match a.value {
                    UntaggedValue::SmallInt(x) => Value {
                        value: UntaggedValue::BigInt(big_from_i64(x)),
                        tag: crate::tag::Tag::unknown(),
                    },
                    UntaggedValue::BigInt(b) => Value {
                        value: UntaggedValue::BigInt(b),
                        tag: crate::tag::Tag::unknown(),
                    },
                    _ => {
                        proof {
                            assert(false);
                        }
                        Value {
                            value: UntaggedValue::Nothing,
                            tag: crate::tag::Tag::unknown(),
                        }
                    },
                };
                return (cur, out);
            },
        }
    }
}

/// Pulls from a finite upstream until an element passes the threshold test
/// or the upstream is exhausted.
#[verifier::loop_isolation(false)]
fn drain_where(pred: &Value, up: ValueStream) -> (res: (ValueStream, Option<Value>))
    requires
        up.wf(),
        up.model() is Fin,
    ensures
        res.0.wf(),
        res.0.model() is Fin,
        res.0.height() <= up.height(),
        ({
            let w = where_out(val_view(*pred), fin_seq(up.model()));
            match res.1 {
                Some(x) => w.len() > 0 && val_view(x) == w[0] && where_out(
                    val_view(*pred),
                    fin_seq(res.0.model()),
                ) == w.drop_first(),
                None => w.len() == 0 && fin_seq(res.0.model()).len() == 0,
            }
        }),
    decreases up.height() + 1, 0int,
{
    let ghost p = val_view(*pred);
    let ghost w = where_out(p, fin_seq(up.model()));
    let ghost h0 = up.height();
    let mut cur = up;
    loop
        invariant
            cur.wf(),
            cur.model() is Fin,
            cur.height() <= h0,
            where_out(p, fin_seq(cur.model())) == w,
        decreases fin_seq(cur.model()).len(),
    {
        let ghost rem = fin_seq(cur.model());
        let (c2, r) = stream_step(cur);
        cur = c2;
        match r {
            Some(x) => {
                if pred.lt(&x) {
                    proof {
                        assert(where_out(p, rem) == seq![rem[0]] + where_out(
                            p,
                            rem.drop_first(),
                        ));
                        assert((seq![rem[0]] + where_out(p, rem.drop_first()))[0] == rem[0]);
                        assert((seq![rem[0]] + where_out(p, rem.drop_first())).drop_first()
                            =~= where_out(p, rem.drop_first()));
                    }
                    return (cur, Some(x));
                }
            },
            None => {
                return (cur, None);
            },
        }
    }
}

/// Pulls from a finite upstream until an element equal to `item` is found
/// or the upstream is exhausted.
#[verifier::loop_isolation(false)]
fn drain_contains(item: &Value, up: ValueStream) -> (res: (ValueStream, Option<Value>))
    requires
        up.wf(),
        up.model() is Fin,
    ensures
        res.0.wf(),
        res.0.model() is Fin,
        res.0.height() <= up.height(),
        ({
            let c = contains_out(val_view(*item), fin_seq(up.model()));
            match res.1 {
                Some(x) => c == seq![val_view(x)],
                None => c.len() == 0,
            }
        }),
    decreases up.height() + 1, 0int,
{
    let ghost iv = val_view(*item);
    let ghost c = contains_out(iv, fin_seq(up.model()));
    let ghost h0 = up.height();
    let mut cur = up;
    loop
        invariant
            cur.wf(),
            cur.model() is Fin,
            cur.height() <= h0,
            contains_out(iv, fin_seq(cur.model())) == c,
        decreases fin_seq(cur.model()).len(),
    {
        let ghost rem = fin_seq(cur.model());
        let (c2, r) = stream_step(cur);
        cur = c2;
        match r {
            Some(x) => {
                if x.same_value(item) {
                    return (cur, Some(x));
                }
            },
            None => {
                return (cur, None);
            },
        }
    }
}

/// Pulls the next element out of a stage, handing back the successor stage.
#[verifier::rlimit(100)]
pub fn stream_step(s: ValueStream) -> (res: (ValueStream, Option<Value>))
    requires
        s.wf(),
    ensures
        res.0.wf(),
        res.0.height() <= s.height(),
        step_ok(s.model(), res.0.model(), res.1),
        interrupt_step(s, res.0, res.1),
        step_extras(s, res.0, res.1),
    decreases s.height(), 1int,
{
    match s {
        ValueStream::Empty => (ValueStream::Empty, None),
        ValueStream::Source { items, pos } => {
            if pos < items.len() {
                let v = items[pos].duplicate();
                let next_pos = pos + 1;
                proof {
                    assert(tbl_view(items@).skip(pos as int).drop_first() =~= tbl_view(
                        items@,
                    ).skip(next_pos as int));
                    assert(tbl_view(items@).skip(pos as int)[0] == tbl_view(items@)[pos as int]);
                }
                (ValueStream::Source { items, pos: next_pos }, Some(v))
            } else {
                proof {
                    assert(tbl_view(items@).skip(pos as int) =~= Seq::<ValV>::empty());
                }
                (ValueStream::Source { items, pos }, None)
            }
        },
        ValueStream::Count { current } => {
            let out = current.duplicate();
            let one = UntaggedValue::SmallInt(1).into_untagged_value();
            let next = current.add(&one);
            proof {
                assert(step_ok(
                    s.model(),
                    ValueStream::Count { current: next }.model(),
                    Some(out),
                ));
            }
            (ValueStream::Count { current: next }, Some(out))
        },
        ValueStream::Take { upstream, remaining } => {
            if remaining > 0 {
                let (up2, r) = stream_step(*upstream);
                let rem2: i64 = remaining - 1;
                proof {
                    let pre = s.model();
                    let post = ValueStream::Take {
                        upstream: Box::new(up2),
                        remaining: rem2,
                    }.model();
                    match pre {
                        StreamM::Fin(w) => {
                            if w.len() > 0 {
                                assert(fin_seq(post) =~= w.drop_first());
                            } else {
                                assert(fin_seq(post) =~= Seq::<ValV>::empty());
                            }
                        },
                        _ => {},
                    }
                }
                (ValueStream::Take { upstream: Box::new(up2), remaining: rem2 }, r)
            } else {
                proof {
                    assert(fin_seq(s.model()) =~= Seq::<ValV>::empty());
                }
                (ValueStream::Take { upstream, remaining }, None)
            }
        },
        ValueStream::Append { upstream, item } => {
            let (up2, r) = stream_step(*upstream);
            match r {
                Some(v) => {
                    proof {
                        let post = ValueStream::Append {
                            upstream: Box::new(up2),
                            item,
                        }.model();
                        if s.model() is Fin {
                            assert(fin_seq(post) =~= fin_seq(s.model()).drop_first());
                        }
                    }
                    (ValueStream::Append { upstream: Box::new(up2), item }, Some(v))
                },
                None => {
                    match item {
                        Some(v) => {
                            proof {
                                if s.model() is Fin {
                                    assert(fin_seq(s.model()) =~= seq![val_view(v)]);
                                    assert(fin_seq(s.model()).drop_first() =~= Seq::<
                                        ValV,
                                    >::empty());
                                }
                            }
                            (ValueStream::Append { upstream: Box::new(up2), item: None }, Some(v))
                        },
                        None => (ValueStream::Append { upstream: Box::new(up2), item: None }, None),
                    }
                },
            }
        },
        ValueStream::Prepend { item, upstream } => {
            match item {
                Some(v) => {
                    proof {
                        if upstream.model() is Fin {
                            assert(fin_seq(s.model()).drop_first() =~= fin_seq(upstream.model()));
                            assert(fin_seq(s.model())[0] == val_view(v));
                        }
                    }
                    (ValueStream::Prepend { item: None, upstream }, Some(v))
                },
                None => {
                    let (up2, r) = stream_step(*upstream);
                    (ValueStream::Prepend { item: None, upstream: Box::new(up2) }, r)
                },
            }
        },
        ValueStream::Chain { first, second } => {
            let ghost am = first.model();
            let ghost bm = second.model();
            let (f2, r) = stream_step(*first);
            match r {
                Some(v) => {
                    proof {
                        let post = ValueStream::Chain {
                            first: Box::new(f2),
                            second,
                        }.model();
                        match (am, bm) {
                            (StreamM::Fin(a), StreamM::Fin(t)) => {
                                assert(a.len() > 0);
                                assert((a + t)[0] == a[0]);
                                assert(fin_seq(post) =~= (a + t).drop_first());
                            },
                            _ => {},
                        }
                    }
                    (ValueStream::Chain { first: Box::new(f2), second }, Some(v))
                },
                None => {
                    let (s2, r2) = stream_step(*second);
                    proof {
                        let post = ValueStream::Chain {
                            first: Box::new(f2),
                            second: Box::new(s2),
                        }.model();
                        match (am, bm) {
                            (StreamM::Fin(a), StreamM::Fin(t)) => {
                                assert(a.len() == 0);
                                assert((a + t) =~= t);
                                if t.len() > 0 {
                                    assert((a + t)[0] == t[0]);
                                    assert(fin_seq(post) =~= (a + t).drop_first());
                                } else {
                                    assert(fin_seq(post) =~= Seq::<ValV>::empty());
                                }
                            },
                            _ => {},
                        }
                    }
                    (ValueStream::Chain { first: Box::new(f2), second: Box::new(s2) }, r2)
                },
            }
        },
        ValueStream::Sum { upstream, done } => {
            if done {
                (ValueStream::Sum { upstream, done: true }, None)
            } else {
                let zero = UntaggedValue::SmallInt(0).into_untagged_value();
                let (up2, total) = drain_sum(*upstream, zero);
                proof {
                    if s.model() is Fin {
                        assert(fin_seq(s.model())[0] == val_view(total));
                        assert(fin_seq(s.model()).drop_first() =~= Seq::<ValV>::empty());
                    }
                }
                (ValueStream::Sum { upstream: Box::new(up2), done: true }, Some(total))
            }
        },
        ValueStream::Length { upstream, done } => {
            if done {
                (ValueStream::Length { upstream, done: true }, None)
            } else {
                let (up2, n) = drain_len(*upstream);
                proof {
                    assert(fin_seq(s.model())[0] == val_view(n));
                    assert(fin_seq(s.model()).drop_first() =~= Seq::<ValV>::empty());
                }
                (ValueStream::Length { upstream: Box::new(up2), done: true }, Some(n))
            }
        },
        ValueStream::Where { pred, upstream } => {
            let (up2, r) = drain_where(&pred, *upstream);
            proof {
                let p = val_view(pred);
                match r {
                    Some(_) => {},
                    None => {
                        assert(fin_seq(up2.model()) =~= Seq::<ValV>::empty());
                        assert(where_out(p, Seq::<ValV>::empty()) == Seq::<ValV>::empty());
                        assert(fin_seq(s.model()) =~= Seq::<ValV>::empty());
                    },
                }
            }
            (ValueStream::Where { pred, upstream: Box::new(up2) }, r)
        },
        ValueStream::Contains { item, upstream, done } => {
            if done {
                (ValueStream::Contains { item, upstream, done: true }, None)
            } else {
                let (up2, r) = drain_contains(&item, *upstream);
                proof {
                    match r {
                        Some(_) => {
                            assert(fin_seq(s.model()).drop_first() =~= Seq::<ValV>::empty());
                        },
                        None => {
                            assert(fin_seq(s.model()) =~= Seq::<ValV>::empty());
                        },
                    }
                }
                (ValueStream::Contains { item, upstream: Box::new(up2), done: true }, r)
            }
        },
        ValueStream::StrLength { upstream } => {
            let ghost um = upstream.model();
            let (up2, r) = stream_step(*upstream);
            match r {
                Some(x) => {
                    let Value { value, tag } = x;
                    let ghost xv = uv_view(value);
                    let out = match value {
                        UntaggedValue::Str(st) => {
                            let n = st.as_str().len();
                            Value { value: UntaggedValue::BigInt(big_from_usize(n)), tag }
                        },
                        other => Value { value: UntaggedValue::SmallInt(0), tag: tag },
                    };
                    proof {
                        assert(val_view(out) == strlen_map(xv));
                        match um {
                            StreamM::Fin(u) => {
                                assert(u.map_values(|v: ValV| strlen_map(v))[0] == strlen_map(
                                    u[0],
                                ));
                                assert(fin_seq(
                                    ValueStream::StrLength {
                                        upstream: Box::new(up2),
                                    }.model(),
                                ) =~= u.map_values(|v: ValV| strlen_map(v)).drop_first());
                            },
                            _ => {},
                        }
                    }
                    (ValueStream::StrLength { upstream: Box::new(up2) }, Some(out))
                },
                None => {
                    proof {
                        match um {
                            StreamM::Fin(u) => {
                                assert(u.map_values(|v: ValV| strlen_map(v)).len() == 0);
                                assert(fin_seq(
                                    ValueStream::StrLength {
                                        upstream: Box::new(up2),
                                    }.model(),
                                ) =~= Seq::<ValV>::empty());
                            },
                            _ => {},
                        }
                    }
                    (ValueStream::StrLength { upstream: Box::new(up2) }, None)
                },
            }
        },
        ValueStream::ToInt { upstream, radix, tag } => {
            let ghost um = upstream.model();
            let ghost sp = tag.span;
            let (up2, r) = stream_step(*upstream);
            match r {
                Some(x) => {
                    let ghost xv = val_view(x);
                    let out = match crate::commands::str_to_int::action(&x, tag.span, radix) {
                        Ok(v) => v,
                        Err(e) => UntaggedValue::Error(e).into_untagged_value(),
                    };
                    proof {
                        assert(val_view(out) == crate::commands::str_to_int::to_int_elem(
                            xv,
                            radix as int,
                            sp,
                        ));
                        match um {
                            StreamM::Fin(u) => {
                                let f = |v: ValV| crate::commands::str_to_int::to_int_elem(
                                    v,
                                    radix as int,
                                    sp,
                                );
                                assert(u.map_values(f)[0] == f(u[0]));
                                assert(fin_seq(
                                    ValueStream::ToInt {
                                        upstream: Box::new(up2),
                                        radix,
                                        tag,
                                    }.model(),
                                ) =~= u.map_values(f).drop_first());
                            },
                            _ => {},
                        }
                    }
                    (ValueStream::ToInt { upstream: Box::new(up2), radix, tag }, Some(out))
                },
                None => {
                    proof {
                        match um {
                            StreamM::Fin(u) => {
                                let f = |v: ValV| crate::commands::str_to_int::to_int_elem(
                                    v,
                                    radix as int,
                                    sp,
                                );
                                assert(u.map_values(f).len() == 0);
                                assert(fin_seq(
                                    ValueStream::ToInt {
                                        upstream: Box::new(up2),
                                        radix,
                                        tag,
                                    }.model(),
                                ) =~= Seq::<ValV>::empty());
                            },
                            _ => {},
                        }
                    }
                    (ValueStream::ToInt { upstream: Box::new(up2), radix, tag }, None)
                },
            }
        },
        ValueStream::RangeIter { curr, end, moves_up, end_inclusive, done, tag } => {
            if done {
                return (
                    ValueStream::RangeIter { curr, end, moves_up, end_inclusive, done: true, tag },
                    None,
                );
            }
            match curr.compare_order(&end) {
                None => {
                    let e = crate::errors::ShellError::labeled_error(
                        "Cannot create range",
                        "unsupported range",
                        tag.span,
                    );
                    let out = UntaggedValue::Error(e).into_value(tag.duplicate());
                    proof {
                        assert(fin_seq(s.model()).drop_first() =~= Seq::<ValV>::empty());
                    }
                    (
                        ValueStream::RangeIter {
                            curr,
                            end,
                            moves_up,
                            end_inclusive,
                            done: true,
                            tag,
                        },
                        Some(out),
                    )
                },
                Some(ord) => {
                    let emit: bool = if moves_up {
                        match ord {
                            crate::value::CmpResult::Less => true,
                            crate::value::CmpResult::Equal => end_inclusive,
                            crate::value::CmpResult::Greater => false,
                        }
                    } else {
                        match ord {
                            crate::value::CmpResult::Greater => true,
                            crate::value::CmpResult::Equal => end_inclusive,
                            crate::value::CmpResult::Less => false,
                        }
                    };
                    if emit {
                        let dup = curr.duplicate();
                        let out = Value { value: dup.value, tag: tag.duplicate() };
                        let step_value = UntaggedValue::SmallInt(
                            if moves_up {
                                1
                            } else {
                                -1
                            },
                        ).into_untagged_value();
                        let next = curr.add(&step_value);
                        proof {
                            let cv = val_view(curr);
                            let c = num_of(cv)->0;
                            let e = num_of(val_view(end))->0;
                            let pre_seq = range_seq(cv, e, moves_up, end_inclusive);
                            let post_seq = range_seq(
                                val_view(next),
                                e,
                                moves_up,
                                end_inclusive,
                            );
                            assert(pre_seq.len() > 0);
                            assert(pre_seq[0] == cv);
                            assert(post_seq =~= pre_seq.drop_first());
                        }
                        (
                            ValueStream::RangeIter {
                                curr: next,
                                end,
                                moves_up,
                                end_inclusive,
                                done: false,
                                tag,
                            },
                            Some(out),
                        )
                    } else {
                        proof {
                            assert(fin_seq(s.model()) =~= Seq::<ValV>::empty());
                        }
                        (
                            ValueStream::RangeIter {
                                curr,
                                end,
                                moves_up,
                                end_inclusive,
                                done: false,
                                tag,
                            },
                            None,
                        )
                    }
                },
            }
        },
        ValueStream::Rows { block, ctx, base, upstream, pending, ppos } => rows_step(
            block,
            ctx,
            base,
            *upstream,
            pending,
            ppos,
        ),
        ValueStream::ParEach(p) => {
            let (p2, r) = crate::par_iter_adapter::ppi_step(p);
            (ValueStream::ParEach(p2), r)
        },
        ValueStream::Inspect { upstream } => {
            let (up2, r) = stream_step(*upstream);
            match &r {
                Some(v) => debug_print(v),
                None => {},
            }
            proof {
                assert(step_ok(
                    s.model(),
                    ValueStream::Inspect { upstream: Box::new(up2) }.model(),
                    r,
                ));
            }
            (ValueStream::Inspect { upstream: Box::new(up2) }, r)
        },
        ValueStream::Interruptible { upstream, signal, tripped } => {
            if tripped {
                (ValueStream::Interruptible { upstream, signal, tripped: true }, None)
            } else if signal.is_set() {
                (ValueStream::Interruptible { upstream, signal, tripped: true }, None)
            } else {
                let (up2, r) = stream_step(*upstream);
                (
                    ValueStream::Interruptible {
                        upstream: Box::new(up2),
                        signal,
                        tripped: false,
                    },
                    r,
                )
            }
        },
    }
}

/// One pull of the per-row iteration stage: serves the current row's
/// remaining output, pulling and running the block on further rows as
/// needed.
#[verifier::loop_isolation(false)]
fn rows_step(
    block: Box<crate::value::CapturedBlock>,
    ctx: crate::evaluate::evaluation_context::EvaluationContext,
    base: crate::scope::Scope,
    upstream: ValueStream,
    pending: Vec<Value>,
    ppos: usize,
) -> (res: (ValueStream, Option<Value>))
    requires
        (ValueStream::Rows {
            block,
            ctx,
            base,
            upstream: Box::new(upstream),
            pending,
            ppos,
        }).wf(),
    ensures
        res.0.wf(),
        res.0.height() <= upstream.height() + 1,
        step_ok(
            (ValueStream::Rows {
                block,
                ctx,
                base,
                upstream: Box::new(upstream),
                pending,
                ppos,
            }).model(),
            res.0.model(),
            res.1,
        ),
        !(res.0 is Interruptible),
    decreases upstream.height() + 1, 0int,
{
    let ghost m0 = (ValueStream::Rows {
        block,
        ctx,
        base,
        upstream: Box::new(upstream),
        pending,
        ppos,
    }).model();
    let ghost h0 = upstream.height();
    let ghost bv = crate::value::capblock_view(*block);
    let ghost env0 = crate::scope::scope_frames(base);
    let ghost cap0 = crate::scope::capture_of(base);
    let mut up = upstream;
    let mut base = base;
    let mut pending = pending;
    let mut ppos = ppos;
    loop
        invariant
            up.wf(),
            up.model() is Fin,
            up.height() <= h0,
            ppos <= pending@.len(),
            base.depth() > 0,
            crate::scope::scope_frames(base) == env0,
            crate::scope::capture_of(base) == cap0,
            StreamM::Fin(
                tbl_view(pending@).skip(ppos as int) + crate::commands::each::rows_out(
                    bv,
                    env0,
                    cap0,
                    fin_seq(up.model()),
                ),
            ) == m0,
        decreases fin_seq(up.model()).len(),
    {
        if ppos < pending.len() {
            let v = pending[ppos].duplicate();
            let ghost q = tbl_view(pending@);
            let new_ppos = ppos + 1;
            proof {
                let tail = crate::commands::each::rows_out(bv, env0, cap0, fin_seq(up.model()));
                assert(q.skip(ppos as int)[0] == q[ppos as int]);
                assert((q.skip(ppos as int) + tail)[0] == q[ppos as int]);
                assert((q.skip(ppos as int) + tail).drop_first() =~= q.skip(new_ppos as int)
                    + tail);
            }
            let r0 = ValueStream::Rows {
                block,
                ctx,
                base,
                upstream: Box::new(up),
                pending,
                ppos: new_ppos,
            };
            return (r0, Some(v));
        }
        let ghost rem = fin_seq(up.model());
        let (u2, r) = stream_step(up);
        up = u2;
        match r {
            Some(item) => {
                proof {
                    assert(crate::commands::each::rows_out(bv, env0, cap0, rem)
                        == crate::commands::each::row_out(bv, env0, cap0, rem[0])
                        + crate::commands::each::rows_out(bv, env0, cap0, rem.drop_first()));
                    assert(tbl_view(pending@).skip(ppos as int) =~= Seq::<ValV>::empty());
                }
                let new_pending = crate::commands::each::row_values(&*block, &ctx, &mut base, item);
                pending = new_pending;
                ppos = 0;
                proof {
                    assert(tbl_view(pending@).skip(0) =~= tbl_view(pending@));
                    assert(tbl_view(pending@).skip(0) + crate::commands::each::rows_out(
                        bv,
                        env0,
                        cap0,
                        fin_seq(up.model()),
                    ) =~= crate::commands::each::row_out(bv, env0, cap0, rem[0])
                        + crate::commands::each::rows_out(bv, env0, cap0, rem.drop_first()));
                }
            },
            None => {
                proof {
                    assert(tbl_view(pending@).skip(ppos as int) =~= Seq::<ValV>::empty());
                    assert(crate::commands::each::rows_out(bv, env0, cap0, fin_seq(up.model()))
                        == Seq::<ValV>::empty());
                    assert(fin_seq(m0) =~= Seq::<ValV>::empty());
                }
                let r0 = ValueStream::Rows {
                    block,
                    ctx,
                    base,
                    upstream: Box::new(up),
                    pending,
                    ppos,
                };
                return (r0, None);
            },
        }
    }
}

impl ValueStream {
    /// Pulls the next element: `None` means exhaustion (for a well-formed
    /// finite stage, permanently).
    pub fn next(&mut self) -> (r: Option<Value>)
        requires
            old(self).wf(),
        ensures
            final(self).wf(),
            final(self).height() <= old(self).height(),
            step_ok(old(self).model(), final(self).model(), r),
            interrupt_step(*old(self), *final(self), r),
            step_extras(*old(self), *final(self), r),
    {
        let mut taken = ValueStream::Empty;
        core::mem::swap(self, &mut taken);
        let (s2, r) = stream_step(taken);
        *self = s2;
        r
    }

    /// A stream of exactly the given elements, in order.
    pub fn from_vec(items: Vec<Value>) -> (r: ValueStream)
        ensures
            r.wf(),
            r.model() == StreamM::Fin(tbl_view(items@)),
            r == (ValueStream::Source { items, pos: 0usize }),
    {
        let r = ValueStream::Source { items, pos: 0 };
        proof {
            assert(fin_seq(r.model()) =~= tbl_view(r->Source_items@));
        }
        r
    }

    /// A stream of one element.
    pub fn once(item: Value) -> (r: ValueStream)
        ensures
            r.wf(),
            r.model() == StreamM::Fin(seq![val_view(item)]),
            r matches ValueStream::Source { items, pos } && pos == 0 && items@.len() == 1
                && items@[0] == item,
    {
        let ghost iv = val_view(item);
        let mut items: Vec<Value> = Vec::new();
        items.push(item);
        let ghost itemsv = items@;
        let r = ValueStream::from_vec(items);
        proof {
            assert(tbl_view(itemsv) =~= seq![iv]);
        }
        r
    }

    /// Wraps this stream so that it checks the shared cancellation signal
    /// on every pull and behaves as exhausted once the signal is set.
    pub fn interruptible(self, ctrl_c: InterruptHandle) -> (r: ValueStream)
        requires
            self.wf(),
        ensures
            r.wf(),
            r == (ValueStream::Interruptible {
                upstream: Box::new(self),
                signal: ctrl_c,
                tripped: false,
            }),
    {
        ValueStream::Interruptible { upstream: Box::new(self), signal: ctrl_c, tripped: false }
    }

    /// Materializes a finite stream.
    pub fn into_vec(self) -> (r: Vec<Value>)
        requires
            self.wf(),
            self.model() is Fin,
        ensures
            tbl_view(r@) == fin_seq(self.model()),
    {
        let ghost s0 = fin_seq(self.model());
        let mut cur = self;
        let mut out: Vec<Value> = Vec::new();
        proof {
            assert(tbl_view(out@) =~= Seq::<ValV>::empty());
        }
        loop
            invariant
                cur.wf(),
                cur.model() is Fin,
                tbl_view(out@) + fin_seq(cur.model()) == s0,
            ensures
                tbl_view(out@) == s0,
            decreases fin_seq(cur.model()).len(),
        {
            let ghost rem = fin_seq(cur.model());
            let r = cur.next();
            match r {
                Some(v) => {
                    let ghost before = out@;
                    out.push(v);
                    proof {
                        assert(tbl_view(out@) =~= tbl_view(before).push(val_view(v)));
                        assert(tbl_view(out@) + fin_seq(cur.model()) =~= tbl_view(before)
                            + rem);
                    }
                },
                None => {
                    proof {
                        assert(tbl_view(out@) + fin_seq(cur.model()) =~= tbl_view(out@));
                    }
                    break ;
                },
            }
        }
        out
    }
}

/// The stream with no elements.
pub fn empty_value_iterator() -> (r: ValueStream)
    ensures
        r.wf(),
        r.model() == StreamM::Fin(Seq::<ValV>::empty()),
{
    ValueStream::Empty
}

} // verus!
