use crate::stream::{fin_seq, stream_step, StreamM, ValueStream};
use crate::value::{spec_add, spec_lt, tbl_view, val_view, UntaggedValue, ValV, Value};
use rayon::iter::{IntoParallelIterator, ParallelIterator};
use vstd::prelude::*;

verus! {

/// The per-element transform a partitioned parallel iterator applies: a
/// closed set, so that every worker runs verified code.
#[derive(Clone, Copy, Debug)]
pub enum Transform {
    /// Passes every element through unchanged.
    Keep,
    /// Adds a fixed-width constant under the coercion ladder; an element
    /// that is not an integer is dropped.
    AddSmall(i64),
    /// Adds a fixed-width constant to every fixed-width integer element,
    /// promoting on overflow, and passes every other element through
    /// unchanged.
    AddToInts(i64),
    /// Keeps exactly the elements the threshold is strictly less than.
    KeepGreater(i64),
}

/// What the transform makes of one element; `None` drops it.
pub open spec fn apply_spec(t: Transform, v: ValV) -> Option<ValV> {
    match t {
        Transform::Keep => Some(v),
        Transform::AddSmall(k) => spec_add(v, ValV::Small(k as int)),
        Transform::AddToInts(k) => match v {
            ValV::Small(x) => Some(crate::value::int_val(x + k)),
            _ => Some(v),
        },
        Transform::KeepGreater(k) => if spec_lt(ValV::Small(k as int), v) {
            Some(v)
        } else {
            None
        },
    }
}

/// The transform applied to every element of a sequence, in order, dropped
/// elements removed.
pub open spec fn apply_seq(t: Transform, s: Seq<ValV>) -> Seq<ValV>
    decreases s.len(),
{
    if s.len() == 0 {
        Seq::empty()
    } else {
        match apply_spec(t, s[0]) {
            Some(v) => seq![v] + apply_seq(t, s.drop_first()),
            None => apply_seq(t, s.drop_first()),
        }
    }
}

/// The transform applied chunk by chunk, the chunks' outputs concatenated
/// in chunk order.
pub open spec fn apply_chunked(t: Transform, cs: Seq<Seq<ValV>>) -> Seq<ValV>
    decreases cs.len(),
{
    if cs.len() == 0 {
        Seq::empty()
    } else {
        apply_seq(t, cs[0]) + apply_chunked(t, cs.drop_first())
    }
}

/// The views of a sequence of materialized chunks.
pub open spec fn chunks_view(cs: Seq<Vec<Value>>) -> Seq<Seq<ValV>> {
    Seq::new(
        cs.len(),
        |i: int|
            if 0 <= i < cs.len() {
                tbl_view(cs[i]@)
            } else {
                Seq::empty()
            },
    )
}

/// Applying a transform distributes over concatenation.
pub proof fn lemma_apply_seq_concat(t: Transform, a: Seq<ValV>, b: Seq<ValV>)
    ensures
        apply_seq(t, a + b) == apply_seq(t, a) + apply_seq(t, b),
    decreases a.len(),
{
    if a.len() == 0 {
        assert(a + b =~= b);
        assert(apply_seq(t, a) + apply_seq(t, b) =~= apply_seq(t, b));
    } else {
        lemma_apply_seq_concat(t, a.drop_first(), b);
        assert((a + b).drop_first() =~= a.drop_first() + b);
        assert((a + b)[0] == a[0]);
        match apply_spec(t, a[0]) {
            Some(v) => {
                assert(apply_seq(t, a + b) == seq![v] + (apply_seq(t, a.drop_first()) + apply_seq(
                    t,
                    b,
                )));
                assert(seq![v] + (apply_seq(t, a.drop_first()) + apply_seq(t, b)) =~= (seq![v]
                    + apply_seq(t, a.drop_first())) + apply_seq(t, b));
            },
            None => {},
        }
    }
}

/// Chunked application gains one more chunk at the end.
pub proof fn lemma_apply_chunked_push(t: Transform, cs: Seq<Seq<ValV>>, c: Seq<ValV>)
    ensures
        apply_chunked(t, cs.push(c)) == apply_chunked(t, cs) + apply_seq(t, c),
    decreases cs.len(),
{
    if cs.len() == 0 {
        assert(cs.push(c)[0] == c);
        assert(cs.push(c).drop_first() =~= Seq::<Seq<ValV>>::empty());
        assert(apply_chunked(t, Seq::<Seq<ValV>>::empty()) == Seq::<ValV>::empty());
        assert(apply_chunked(t, cs.push(c)) == apply_seq(t, c) + Seq::<ValV>::empty());
        assert(apply_seq(t, c) + Seq::<ValV>::empty() =~= apply_seq(t, c));
        assert(apply_chunked(t, cs) + apply_seq(t, c) =~= apply_seq(t, c));
    } else {
        lemma_apply_chunked_push(t, cs.drop_first(), c);
        assert(cs.push(c).drop_first() =~= cs.drop_first().push(c));
        assert(cs.push(c)[0] == cs[0]);
        assert(apply_seq(t, cs[0]) + (apply_chunked(t, cs.drop_first()) + apply_seq(t, c)) =~= (
        apply_seq(t, cs[0]) + apply_chunked(t, cs.drop_first())) + apply_seq(t, c));
    }
}

impl Transform {
    /// Applies the transform to one element.
    pub fn apply(&self, v: Value) -> (r: Option<Value>)
        ensures
            match r {
                Some(x) => apply_spec(*self, val_view(v)) == Some(val_view(x)),
                None => apply_spec(*self, val_view(v)) is None,
            },
    {
        match self {
            Transform::Keep => Some(v),
            Transform::AddSmall(k) => {
                let kv = UntaggedValue::SmallInt(*k).into_untagged_value();
                match &v.value {
                    UntaggedValue::SmallInt(_) => Some(v.add(&kv)),
                    UntaggedValue::BigInt(_) => Some(v.add(&kv)),
                    UntaggedValue::Error(_) => Some(v.add(&kv)),
                    _ => None,
                }
            },
            Transform::AddToInts(k) => {
                match &v.value {
                    UntaggedValue::SmallInt(_) => {
                        let kv = UntaggedValue::SmallInt(*k).into_untagged_value();
                        Some(v.add(&kv))
                    },
                    _ => Some(v),
                }
            },
            Transform::KeepGreater(k) => {
                let kv = UntaggedValue::SmallInt(*k).into_untagged_value();
                if kv.lt(&v) {
                    Some(v)
                } else {
                    None
                }
            },
        }
    }
}

/// Applies the transform to every element of one chunk, sequentially and in
/// order. This is exactly the work one worker performs.
pub fn apply_chunk_vec(t: &Transform, chunk: Vec<Value>) -> (r: Vec<Value>)
    ensures
        tbl_view(r@) == apply_seq(*t, tbl_view(chunk@)),
{
    let ghost c0 = tbl_view(chunk@);
    let mut out: Vec<Value> = Vec::new();
    let mut i: usize = 0;
    proof {
        assert(c0.skip(0) =~= c0);
        assert(tbl_view(out@) + apply_seq(*t, c0.skip(0)) =~= apply_seq(*t, c0));
    }
    while i < chunk.len()
        invariant
            0 <= i <= chunk@.len(),
            c0 == tbl_view(chunk@),
            tbl_view(out@) + apply_seq(*t, c0.skip(i as int)) == apply_seq(*t, c0),
        decreases chunk@.len() - i,
    {
        let x = chunk[i].duplicate();
        let ghost before = tbl_view(out@);
        let ghost rem = c0.skip(i as int);
        proof {
            assert(rem[0] == c0[i as int]);
            assert(rem.drop_first() =~= c0.skip(i + 1));
        }
        match t.apply(x) {
            Some(y) => {
                out.push(y);
                proof {
                    assert(tbl_view(out@) =~= before.push(val_view(y)));
                    assert(apply_seq(*t, rem) == seq![val_view(y)] + apply_seq(
                        *t,
                        rem.drop_first(),
                    ));
                    assert(before.push(val_view(y)) + apply_seq(*t, c0.skip(i + 1)) =~= before + (
                    seq![val_view(y)] + apply_seq(*t, rem.drop_first())));
                }
            },
            None => {
                proof {
                    assert(apply_seq(*t, rem) == apply_seq(*t, rem.drop_first()));
                }
            },
        }
        i = i + 1;
    }
    proof {
        assert(c0.skip(c0.len() as int) =~= Seq::<ValV>::empty());
        assert(tbl_view(out@) + Seq::<ValV>::empty() =~= tbl_view(out@));
    }
    out
}

/// The batching concurrency adapter. On demand it pulls a batch of up to
/// `number_of_workers x number_per_worker` elements from its upstream,
/// partitions the batch into chunks of up to `number_per_worker` elements,
/// hands all chunks to a worker pool at once, and serves the chunks'
/// outputs strictly in the order the chunks were submitted, one element per
/// pull. Its output therefore equals a sequential left-to-right application
/// of the transform. Once a batch-fill pulls nothing, it is exhausted.
pub struct PartitionedParallelIterator {
    pub transform: Transform,
    pub number_per_worker: usize,
    pub number_of_workers: usize,
    pub input: Box<ValueStream>,
    pub completed_batch: Vec<Value>,
    pub served: usize,
    pub upstream_done: bool,
    /// The upstream's full output, fixed at construction.
    pub initial: Ghost<Seq<ValV>>,
    /// How many batch-fills have pulled at least one element.
    pub fills: Ghost<int>,
}

impl PartitionedParallelIterator {
    /// The batch bound: how many elements one fill pulls at most.
    pub open spec fn batch_size(self) -> int {
        self.number_per_worker * self.number_of_workers
    }

    /// The not-yet-served part of the last completed batch.
    pub open spec fn queue_rest(self) -> Seq<ValV> {
        tbl_view(self.completed_batch@).skip(self.served as int)
    }

    /// What the upstream will still produce.
    pub open spec fn rem(self) -> Seq<ValV>
        decreases self, 0int,
    {
        fin_seq(self.input.model())
    }

    /// How many upstream elements have been pulled so far.
    pub open spec fn consumed(self) -> int
        decreases self, 0int,
    {
        self.initial@.len() - fin_seq(self.input.model()).len()
    }

    pub open spec fn height(self) -> nat
        decreases self,
    {
        self.input.height() + 1
    }

    /// The iterator's invariant, tying the pending queue and the upstream
    /// to the fixed initial sequence and the fill ledger.
    pub open spec fn wf(self) -> bool
        decreases self, 1int,
    {
        &&& self.input.wf()
        &&& self.input.model() is Fin
        &&& self.served <= self.completed_batch@.len()
        &&& self.rem().len() <= self.initial@.len()
        &&& self.initial@.skip(self.consumed()) == self.rem()
        &&& self.fills@ >= 0
        &&& (self.upstream_done && self.batch_size() > 0 ==> self.rem().len() == 0)
        &&& (self.batch_size() == 0 ==> self.served == self.completed_batch@.len()
            && self.consumed() == 0 && self.fills@ == 0)
        &&& if self.upstream_done {
            if self.batch_size() == 0 || self.initial@.len() == 0 {
                self.fills@ == 0
            } else {
                (self.fills@ - 1) * self.batch_size() < self.initial@.len() <= self.fills@
                    * self.batch_size()
            }
        } else {
            self.consumed() == self.fills@ * self.batch_size()
        }
    }

    /// The iterator has reported exhaustion for good.
    pub open spec fn exhausted(self) -> bool {
        self.upstream_done && self.served == self.completed_batch@.len()
    }

    /// What the iterator will still produce: the unserved queue, then the
    /// transform's output over everything the upstream still holds.
    pub open spec fn model(self) -> StreamM
        decreases self, 1int,
    {
        if self.input.model() is Fin {
            StreamM::Fin(
                self.queue_rest() + if self.batch_size() == 0 {
                    Seq::empty()
                } else {
                    apply_seq(self.transform, self.rem())
                },
            )
        } else {
            StreamM::Dead
        }
    }

    /// A fresh iterator over `input`. With positive sizing parameters it
    /// will produce exactly the transform's output over the whole upstream,
    /// in upstream order; with a zero parameter it is immediately exhausted
    /// and attempts no work.
    pub fn new(
        transform: Transform,
        number_per_worker: usize,
        number_of_workers: usize,
        input: ValueStream,
    ) -> (r: PartitionedParallelIterator)
        requires
            input.wf(),
            input.model() is Fin,
        ensures
            r.wf(),
            !r.upstream_done,
            r.served == r.completed_batch@.len(),
            r.fills@ == 0,
            r.transform == transform,
            r.number_per_worker == number_per_worker,
            r.number_of_workers == number_of_workers,
            r.initial@ == fin_seq(input.model()),
            r.height() == input.height() + 1,
            r.model() == StreamM::Fin(
                if number_per_worker * number_of_workers == 0 {
                    Seq::<ValV>::empty()
                } else {
                    apply_seq(transform, fin_seq(input.model()))
                },
            ),
    {
        let ghost initial = fin_seq(input.model());
        let r = PartitionedParallelIterator {
            transform,
            number_per_worker,
            number_of_workers,
            input: Box::new(input),
            completed_batch: Vec::new(),
            served: 0,
            upstream_done: false,
            initial: Ghost(initial),
            fills: Ghost(0int),
        };
        proof {
            assert(r.initial@.skip(0) =~= r.rem());
            assert(r.queue_rest() =~= Seq::<ValV>::empty());
            if r.batch_size() == 0 {
                assert(r.queue_rest() + Seq::<ValV>::empty() =~= Seq::<ValV>::empty());
            } else {
                assert(r.queue_rest() + apply_seq(transform, r.rem()) =~= apply_seq(
                    transform,
                    initial,
                ));
            }
        }
        r
    }
}

/// Relies on rayon: `into_par_iter` over a `Vec` is an indexed parallel
/// iterator, `flat_map_iter` keeps each chunk's output together, and
/// `collect` into a `Vec` places every chunk's output at the chunk's
/// original position. Each worker runs the verified `apply_chunk_vec`, so
/// the collected result is the chunks' outputs concatenated in submission
/// order, whatever order the workers finish in.
#[verifier::external_body]
fn run_chunks_parallel(t: &Transform, chunks: Vec<Vec<Value>>) -> (r: Vec<Value>)
    ensures
        tbl_view(r@) == apply_chunked(*t, chunks_view(chunks@)),
{
    let tc: Transform = *t;
    chunks.into_par_iter().flat_map_iter(move |chunk: Vec<Value>| apply_chunk_vec(
        &tc,
        chunk,
    )).collect()
}

/// One pull of the partitioned parallel iterator: serves the front of the
/// pending queue, and when the queue is drained pulls, partitions and
/// dispatches the next batch; once a batch-fill pulls nothing, every later
/// pull reports exhaustion.
#[verifier::loop_isolation(false)]
pub fn ppi_step(p: PartitionedParallelIterator) -> (res: (
    PartitionedParallelIterator,
    Option<Value>,
))
    requires
        p.wf(),
    ensures
        res.0.wf(),
        res.0.height() <= p.height(),
        crate::stream::step_ok(p.model(), res.0.model(), res.1),
        res.0.transform == p.transform,
        res.0.number_per_worker == p.number_per_worker,
        res.0.number_of_workers == p.number_of_workers,
        res.0.initial == p.initial,
    decreases p.height(), 0int,
{
    let ghost m0 = p.model();
    let ghost m_spec: int = p.batch_size();
    let PartitionedParallelIterator {
        transform,
        number_per_worker,
        number_of_workers,
        input,
        completed_batch,
        served,
        upstream_done,
        initial,
        fills,
    } = p;
    let mut input: ValueStream = *input;
    let mut completed_batch = completed_batch;
    let mut served = served;
    let mut upstream_done = upstream_done;
    let ghost mut fillsv = fills@;
    let ghost h0 = input.height();
    loop
        invariant
            input.wf(),
            input.model() is Fin,
            input.height() <= h0,
            served <= completed_batch@.len(),
            fin_seq(input.model()).len() <= initial@.len(),
            initial@.skip(initial@.len() - fin_seq(input.model()).len()) == fin_seq(
                input.model(),
            ),
            fillsv >= 0,
            (upstream_done && m_spec > 0 ==> fin_seq(input.model()).len() == 0),
            (m_spec == 0 ==> served == completed_batch@.len() && initial@.len() == fin_seq(
                input.model(),
            ).len() && fillsv == 0),
            (if upstream_done {
                if m_spec == 0 || initial@.len() == 0 {
                    fillsv == 0
                } else {
                    (fillsv - 1) * m_spec < initial@.len() <= fillsv * m_spec
                }
            } else {
                initial@.len() - fin_seq(input.model()).len() == fillsv * m_spec
            }),
            StreamM::Fin(
                tbl_view(completed_batch@).skip(served as int) + (if m_spec == 0 {
                    Seq::<ValV>::empty()
                } else {
                    apply_seq(transform, fin_seq(input.model()))
                }),
            ) == m0,
        decreases fin_seq(input.model()).len() + (if upstream_done {
            0int
        } else {
            1int
        }),
    {
        if served < completed_batch.len() {
            let v = completed_batch[served].duplicate();
            let ghost q = tbl_view(completed_batch@);
            let new_served = served + 1;
            proof {
                assert(q.skip(served as int)[0] == q[served as int]);
                assert(q.skip(new_served as int) =~= q.skip(served as int).drop_first());
                let tail: Seq<ValV> = if m_spec == 0 {
                    Seq::<ValV>::empty()
                } else {
                    apply_seq(transform, fin_seq(input.model()))
                };
                assert((q.skip(served as int) + tail)[0] == q[served as int]);
                assert((q.skip(served as int) + tail).drop_first() =~= q.skip(new_served as int)
                    + tail);
            }
            let r0 = PartitionedParallelIterator {
                transform,
                number_per_worker,
                number_of_workers,
                input: Box::new(input),
                completed_batch,
                served: new_served,
                upstream_done,
                initial,
                fills: Ghost(fillsv),
            };
            return (r0, Some(v));
        }
        if upstream_done {
            proof {
                assert(tbl_view(completed_batch@).skip(served as int) =~= Seq::<ValV>::empty());
                if m_spec > 0 {
                    assert(fin_seq(input.model()) =~= Seq::<ValV>::empty());
                    assert(apply_seq(transform, Seq::<ValV>::empty()) == Seq::<ValV>::empty());
                }
                assert(fin_seq(m0) =~= Seq::<ValV>::empty());
            }
            let r0 = PartitionedParallelIterator {
                transform,
                number_per_worker,
                number_of_workers,
                input: Box::new(input),
                completed_batch,
                served,
                upstream_done: true,
                initial,
                fills: Ghost(fillsv),
            };
            return (r0, None);
        }
        // The queue is drained and the upstream has not reported exhaustion:
        // pull the next batch.
        proof {
            assert((number_per_worker as int) * (number_of_workers as int) < 0x100000000000000000000000000000000)
                by (nonlinear_arith)
                requires
                    0 <= number_per_worker as int <= 0xffffffffffffffff,
                    0 <= number_of_workers as int <= 0xffffffffffffffff,
            ;
        }
        let m: u128 = number_per_worker as u128 * number_of_workers as u128;
        proof {
            assert(m == m_spec);
        }
        let mut chunks: Vec<Vec<Value>> = Vec::new();
        let mut current: Vec<Value> = Vec::new();
        let mut count: u128 = 0;
        let mut hit_end: bool = false;
        let ghost rem_before = fin_seq(input.model());
        let ghost mut pulled: Seq<ValV> = Seq::empty();
        proof {
            assert(pulled + rem_before =~= rem_before);
            assert(chunks_view(chunks@) =~= Seq::<Seq<ValV>>::empty());
            assert(tbl_view(current@) =~= Seq::<ValV>::empty());
            assert(apply_seq(transform, Seq::<ValV>::empty()) == Seq::<ValV>::empty());
            assert(apply_chunked(transform, chunks_view(chunks@)) + apply_seq(
                transform,
                tbl_view(current@),
            ) =~= apply_seq(transform, pulled));
        }
        while count < m && !hit_end
            invariant
                input.wf(),
                input.model() is Fin,
                input.height() <= h0,
                count == pulled.len(),
                count <= m,
                rem_before == pulled + fin_seq(input.model()),
                apply_chunked(transform, chunks_view(chunks@)) + apply_seq(
                    transform,
                    tbl_view(current@),
                ) == apply_seq(transform, pulled),
                hit_end ==> fin_seq(input.model()).len() == 0,
            decreases m - count + (if hit_end {
                0int
            } else {
                1int
            }),
        {
            let ghost rem_old = fin_seq(input.model());
            let (i2, r) = stream_step(input);
            input = i2;
            match r {
                Some(x) => {
                    let ghost cur_old = tbl_view(current@);
                    let ghost pulled_old = pulled;
                    proof {
                        pulled = pulled.push(val_view(x));
                        assert(pulled =~= pulled_old + seq![val_view(x)]);
                        assert(pulled + fin_seq(input.model()) =~= pulled_old + rem_old);
                        lemma_apply_seq_concat(transform, pulled_old, seq![val_view(x)]);
                        lemma_apply_seq_concat(transform, cur_old, seq![val_view(x)]);
                        assert(seq![val_view(x)].drop_first() =~= Seq::<ValV>::empty());
                        assert(apply_seq(transform, Seq::<ValV>::empty()) == Seq::<ValV>::empty());
                        match apply_spec(transform, val_view(x)) {
                            Some(y) => {
                                assert(apply_seq(transform, seq![val_view(x)]) =~= seq![y]);
                            },
                            None => {
                                assert(apply_seq(transform, seq![val_view(x)]) =~= Seq::<
                                    ValV,
                                >::empty());
                            },
                        }
                    }
                    current.push(x);
                    proof {
                        assert(tbl_view(current@) =~= cur_old + seq![pulled.last()]);
                        assert(apply_chunked(transform, chunks_view(chunks@)) + apply_seq(
                            transform,
                            tbl_view(current@),
                        ) =~= apply_seq(transform, pulled));
                    }
                    count = count + 1;
                    if current.len() >= number_per_worker {
                        let ghost cs_old = chunks_view(chunks@);
                        let ghost cur_v = tbl_view(current@);
                        proof {
                            lemma_apply_chunked_push(transform, cs_old, cur_v);
                        }
                        chunks.push(current);
                        current = Vec::new();
                        proof {
                            assert(chunks_view(chunks@) =~= cs_old.push(cur_v));
                            assert(tbl_view(current@) =~= Seq::<ValV>::empty());
                            assert(apply_seq(transform, Seq::<ValV>::empty()) == Seq::<
                                ValV,
                            >::empty());
                            assert(apply_chunked(transform, chunks_view(chunks@)) + apply_seq(
                                transform,
                                tbl_view(current@),
                            ) =~= apply_seq(transform, pulled));
                        }
                    }
                },
                None => {
                    hit_end = true;
                    proof {
                        assert(pulled + fin_seq(input.model()) =~= pulled + rem_old);
                    }
                },
            }
        }
        if current.len() > 0 {
            let ghost cs_old = chunks_view(chunks@);
            let ghost cur_v = tbl_view(current@);
            proof {
                lemma_apply_chunked_push(transform, cs_old, cur_v);
            }
            chunks.push(current);
            proof {
                assert(chunks_view(chunks@) =~= cs_old.push(cur_v));
            }
        } else {
            proof {
                assert(tbl_view(current@) =~= Seq::<ValV>::empty());
                assert(apply_seq(transform, Seq::<ValV>::empty()) == Seq::<ValV>::empty());
                assert(apply_chunked(transform, chunks_view(chunks@)) + Seq::<ValV>::empty()
                    =~= apply_chunked(transform, chunks_view(chunks@)));
            }
        }
        proof {
            assert(apply_chunked(transform, chunks_view(chunks@)) == apply_seq(
                transform,
                pulled,
            ));
        }
        if count == 0 {
            upstream_done = true;
            proof {
                assert(pulled.len() == 0);
                assert(pulled + fin_seq(input.model()) =~= fin_seq(input.model()));
                assert(rem_before == fin_seq(input.model()));
                let n = initial@.len();
                let fv = fillsv;
                if m_spec > 0 {
                    assert(fin_seq(input.model()).len() == 0);
                    assert(n == fv * m_spec);
                    if n == 0 {
                        assert(fv == 0) by (nonlinear_arith)
                            requires
                                fv * m_spec == 0,
                                m_spec > 0,
                                fv >= 0,
                        ;
                    } else {
                        assert((fv - 1) * m_spec == fv * m_spec - m_spec) by (nonlinear_arith);
                    }
                }
            }
        } else {
            let was_full: bool = count >= m;
            proof {
                fillsv = fillsv + 1;
            }
            if !was_full {
                upstream_done = true;
            }
            let new_batch = run_chunks_parallel(&transform, chunks);
            completed_batch = new_batch;
            served = 0;
            proof {
                let rem_new = fin_seq(input.model());
                let n = initial@.len();
                assert(tbl_view(completed_batch@).skip(0) =~= tbl_view(completed_batch@));
                lemma_apply_seq_concat(transform, pulled, rem_new);
                assert(apply_seq(transform, rem_before) == apply_seq(transform, pulled)
                    + apply_seq(transform, rem_new));
                assert(tbl_view(completed_batch@) + apply_seq(transform, rem_new) =~= apply_seq(
                    transform,
                    pulled,
                ) + apply_seq(transform, rem_new));
                // the queue was empty before the fill
                assert(fin_seq(m0) =~= apply_seq(transform, rem_before));
                assert(tbl_view(completed_batch@) + apply_seq(transform, rem_new) =~= fin_seq(
                    m0,
                ));
                // the consumed-element ledger
                assert(n - rem_before.len() == (fillsv - 1) * m_spec);
                assert(n - rem_new.len() == (fillsv - 1) * m_spec + pulled.len());
                assert((fillsv - 1) * m_spec + m_spec == fillsv * m_spec) by (nonlinear_arith);
                let c0 = n - rem_before.len();
                assert(initial@.skip(c0).skip(pulled.len() as int) =~= initial@.skip(
                    c0 + pulled.len(),
                ));
                assert(rem_before.skip(pulled.len() as int) =~= rem_new);
                assert(initial@.skip(n - rem_new.len()) =~= fin_seq(input.model()));
                if upstream_done {
                    assert(rem_new.len() == 0);
                    assert(n == (fillsv - 1) * m_spec + pulled.len());
                    assert(pulled.len() >= 1);
                    assert(pulled.len() <= m_spec);
                }
            }
        }
        proof {
            assert(initial@.skip(initial@.len() - fin_seq(input.model()).len()) =~= fin_seq(
                input.model(),
            ));
        }
    }
}

/// For any upstream sequence and positive sizing parameters, what the
/// partitioned parallel iterator will produce equals the transform applied
/// to the upstream sequentially, in the original order, with dropped
/// elements removed - despite the concurrent execution of the chunks.
pub proof fn lemma_parallel_order_preservation(p: PartitionedParallelIterator)
    requires
        p.wf(),
        p.number_per_worker * p.number_of_workers > 0,
        !p.upstream_done,
        p.fills@ == 0,
        p.served == p.completed_batch@.len(),
    ensures
        p.model() == StreamM::Fin(apply_seq(p.transform, p.initial@)),
{
    assert(p.consumed() == 0);
    assert(p.initial@.skip(0) =~= p.initial@);
    assert(p.queue_rest() =~= Seq::<ValV>::empty());
    assert(p.queue_rest() + apply_seq(p.transform, p.rem()) =~= apply_seq(
        p.transform,
        p.initial@,
    ));
}

/// With an upstream of exactly `N` elements and a positive batch bound `M`,
/// the iterator performs exactly `ceil(N / M)` batch-fills before it
/// reports exhaustion.
pub proof fn lemma_batch_fill_count(p: PartitionedParallelIterator)
    requires
        p.wf(),
        p.upstream_done,
        p.number_per_worker * p.number_of_workers > 0,
    ensures
        p.fills@ == (p.initial@.len() + p.number_per_worker * p.number_of_workers - 1) / (
        p.number_per_worker * p.number_of_workers as int),
{
    let m = p.number_per_worker * p.number_of_workers as int;
    let n = p.initial@.len() as int;
    assert(m > 0);
    if n == 0 {
        assert(0 * m == 0) by (nonlinear_arith);
        assert(n + m - 1 == 0 * m + (m - 1));
        vstd::arithmetic::div_mod::lemma_fundamental_div_mod_converse(n + m - 1, m, 0, m - 1);
    } else {
        let q = p.fills@;
        assert((q - 1) * m < n <= q * m);
        assert((q - 1) * m == q * m - m) by (nonlinear_arith);
        let r = n + m - 1 - q * m;
        assert(0 <= r < m);
        vstd::arithmetic::div_mod::lemma_fundamental_div_mod_converse(n + m - 1, m, q, r);
    }
}

} // verus!

verus! {

impl PartitionedParallelIterator {
    /// Pulls the next element; `None` reports exhaustion.
    pub fn next(&mut self) -> (r: Option<Value>)
        requires
            old(self).wf(),
        ensures
            final(self).wf(),
            final(self).height() <= old(self).height(),
            crate::stream::step_ok(old(self).model(), final(self).model(), r),
            final(self).transform == old(self).transform,
            final(self).initial == old(self).initial,
    {
        let mut taken = PartitionedParallelIterator {
            transform: Transform::Keep,
            number_per_worker: 0,
            number_of_workers: 0,
            input: Box::new(ValueStream::Empty),
            completed_batch: Vec::new(),
            served: 0,
            upstream_done: false,
            initial: Ghost(Seq::empty()),
            fills: Ghost(0int),
        };
        core::mem::swap(self, &mut taken);
        let (p2, r) = ppi_step(taken);
        *self = p2;
        r
    }
}

} // verus!
