use crate::value::{entries_view, val_view, ValV, Value};
use vstd::prelude::*;

verus! {

/// The binding table of one lexical frame. A frame is an association list;
/// a later binding of the same name shadows an earlier one, so pushing a
/// binding acts as insert-or-overwrite.
pub open spec fn frame_map(f: Seq<(String, Value)>) -> Map<Seq<char>, ValV>
    decreases f.len(),
{
    if f.len() == 0 {
        Map::empty()
    } else {
        frame_map(f.drop_last()).insert(f.last().0@, val_view(f.last().1))
    }
}

/// The nested lexical environment: a stack of binding frames. Lookup walks
/// from the most recently entered frame outward; `enter_scope` and
/// `exit_scope` must be strictly paired by callers.
pub struct Scope {
    pub frames: Vec<Vec<(String, Value)>>,
}

/// The mathematical content of a scope: one binding table per frame, the
/// outermost frame first.
pub open spec fn scope_frames(s: Scope) -> Seq<Map<Seq<char>, ValV>> {
    Seq::new(
        s.frames@.len(),
        |i: int|
            if 0 <= i < s.frames@.len() {
                frame_map(s.frames@[i]@)
            } else {
                Map::empty()
            },
    )
}

/// Looking a name up in a stack of frames: the innermost frame that binds
/// the name wins.
pub open spec fn stack_lookup(fs: Seq<Map<Seq<char>, ValV>>, n: Seq<char>) -> Option<ValV>
    decreases fs.len(),
{
    if fs.len() == 0 {
        None
    } else if fs.last().contains_key(n) {
        Some(fs.last()[n])
    } else {
        stack_lookup(fs.drop_last(), n)
    }
}

impl View for Scope {
    type V = Seq<Map<Seq<char>, ValV>>;

    open spec fn view(&self) -> Seq<Map<Seq<char>, ValV>> {
        scope_frames(*self)
    }
}

proof fn lemma_frame_map_found(f: Seq<(String, Value)>, n: Seq<char>, i: int)
    requires
        0 <= i < f.len(),
        f[i].0@ == n,
        forall|j: int| i < j < f.len() ==> f[j].0@ != n,
    ensures
        frame_map(f).contains_key(n),
        frame_map(f)[n] == val_view(f[i].1),
    decreases f.len(),
{
    if i == f.len() - 1 {
    } else {
        lemma_frame_map_found(f.drop_last(), n, i);
    }
}

proof fn lemma_frame_map_absent(f: Seq<(String, Value)>, n: Seq<char>)
    requires
        forall|j: int| 0 <= j < f.len() ==> f[j].0@ != n,
    ensures
        !frame_map(f).contains_key(n),
    decreases f.len(),
{
    if f.len() > 0 {
        lemma_frame_map_absent(f.drop_last(), n);
    }
}

/// Looks a name up in one frame: the most recent binding wins.
fn frame_get(f: &Vec<(String, Value)>, name: &String) -> (r: Option<Value>)
    ensures
        match r {
            Some(v) => frame_map(f@).contains_key(name@) && val_view(v) == frame_map(f@)[name@],
            None => !frame_map(f@).contains_key(name@),
        },
{
    let mut i: usize = f.len();
    while i > 0
        invariant
            0 <= i <= f@.len(),
            forall|j: int| i <= j < f@.len() ==> f@[j].0@ != name@,
        decreases i,
    {
        i = i - 1;
        if f[i].0 == *name {
            let v = f[i].1.duplicate();
            proof {
                lemma_frame_map_found(f@, name@, i as int);
            }
            return Some(v);
        }
    }
    proof {
        lemma_frame_map_absent(f@, name@);
    }
    None
}

impl Scope {
    /// A fresh scope: a single empty root frame.
    pub fn basic() -> (r: Scope)
        ensures
            r@.len() == 1,
            r@[0] == Map::<Seq<char>, ValV>::empty(),
    {
        let mut frames: Vec<Vec<(String, Value)>> = Vec::new();
        frames.push(Vec::new());
        let r = Scope { frames };
        proof {
            assert(r@[0] == frame_map(r.frames@[0]@));
        }
        r
    }

    pub open spec fn depth(&self) -> nat {
        self.frames@.len()
    }

    /// Pushes a new, empty frame.
    pub fn enter_scope(&mut self)
        ensures
            final(self)@ == old(self)@.push(Map::<Seq<char>, ValV>::empty()),
            final(self).frames@.len() == old(self).frames@.len() + 1,
            final(self).frames@.drop_last() == old(self).frames@,
            capture_of(*final(self)) == capture_of(*old(self)),
    {
        self.frames.push(Vec::new());
        proof {
            assert(final(self)@ =~= old(self)@.push(Map::<Seq<char>, ValV>::empty()));
            assert(final(self).frames@.drop_last() =~= old(self).frames@);
            assert(entries_view(final(self).frames@.last()@) =~= Seq::<(Seq<char>, ValV)>::empty());
            assert(capture_of(*final(self)) == frames_entries(final(self).frames@.drop_last())
                + entries_view(final(self).frames@.last()@));
            assert(capture_of(*final(self)) =~= capture_of(*old(self)));
        }
    }

    /// Pops the most recently pushed frame. Callers pair every
    /// `enter_scope` with exactly one `exit_scope`, even on error paths.
    pub fn exit_scope(&mut self)
        requires
            old(self).depth() > 0,
        ensures
            final(self)@ == old(self)@.drop_last(),
            final(self).frames@ == old(self).frames@.drop_last(),
    {
        self.frames.pop();
        proof {
            assert(final(self)@ =~= old(self)@.drop_last());
        }
    }

    /// Binds `name` in the current (top) frame, overwriting any binding of
    /// the same name in that frame.
    pub fn add_var(&mut self, name: String, value: Value)
        requires
            old(self).depth() > 0,
        ensures
            final(self).depth() == old(self).depth(),
            final(self)@ == old(self)@.update(
                old(self)@.len() - 1,
                old(self)@.last().insert(name@, val_view(value)),
            ),
            final(self).frames@.drop_last() == old(self).frames@.drop_last(),
            capture_of(*final(self)) == capture_of(*old(self)).push((name@, val_view(value))),
    {
        let ghost n = name@;
        let ghost vv = val_view(value);
        let ghost top = old(self).frames@.len() - 1;
        let ghost oldframe = old(self).frames@[top]@;
        let mut frame = self.frames.pop().unwrap();
        frame.push((name, value));
        self.frames.push(frame);
        proof {
            assert(self.frames@[top]@ == oldframe.push(self.frames@[top]@.last()));
            assert(self.frames@[top]@.drop_last() =~= oldframe);
            assert(self.frames@[top]@.last().0@ == n);
            assert(val_view(self.frames@[top]@.last().1) == vv);
            assert(frame_map(self.frames@[top]@) == frame_map(oldframe).insert(n, vv));
            assert(self.frames@ =~= old(self).frames@.update(top, self.frames@[top]));
            assert(old(self)@.last() == frame_map(oldframe));
            assert(final(self)@ =~= old(self)@.update(
                old(self)@.len() - 1,
                old(self)@.last().insert(n, vv),
            ));
            assert(final(self).frames@.drop_last() =~= old(self).frames@.drop_last());
            assert(entries_view(final(self).frames@.last()@) =~= entries_view(oldframe).push(
                (n, vv),
            ));
            assert(capture_of(*final(self)) == frames_entries(final(self).frames@.drop_last())
                + entries_view(final(self).frames@.last()@));
            assert(capture_of(*old(self)) == frames_entries(old(self).frames@.drop_last())
                + entries_view(oldframe));
            assert(capture_of(*final(self)) =~= capture_of(*old(self)).push((n, vv)));
        }
    }

    /// Merges a captured closure's bindings into the current frame, in
    /// order.
    pub fn add_vars(&mut self, entries: &Vec<(String, Value)>)
        requires
            old(self).depth() > 0,
        ensures
            final(self).depth() == old(self).depth(),
            final(self)@ == old(self)@.update(
                old(self)@.len() - 1,
                merged(old(self)@.last(), entries_view(entries@)),
            ),
            final(self).frames@.drop_last() == old(self).frames@.drop_last(),
            capture_of(*final(self)) == capture_of(*old(self)) + entries_view(entries@),
    {
        let ghost base = old(self)@.last();
        let ghost ev = entries_view(entries@);
        proof {
            assert(ev.take(0) =~= Seq::<(Seq<char>, ValV)>::empty());
            assert(merged_prefix(base, ev, 0) == base);
            assert(old(self)@.update(old(self)@.len() - 1, base) =~= old(self)@);
            assert(capture_of(*self) + ev.take(0) =~= capture_of(*self));
        }
        let mut i: usize = 0;
        while i < entries.len()
            invariant
                0 <= i <= entries@.len(),
                ev == entries_view(entries@),
                base == old(self)@.last(),
                self.depth() == old(self).depth(),
                old(self).depth() > 0,
                self@ == old(self)@.update(old(self)@.len() - 1, merged_prefix(base, ev, i as int)),
                self.frames@.drop_last() == old(self).frames@.drop_last(),
                capture_of(*self) == capture_of(*old(self)) + ev.take(i as int),
            decreases entries@.len() - i,
        {
            let name = entries[i].0.clone();
            let value = entries[i].1.duplicate();
            let ghost before = self@;
            self.add_var(name, value);
            proof {
                assert(before.last() == merged_prefix(base, ev, i as int));
                assert(ev[i as int] == (entries@[i as int].0@, val_view(entries@[i as int].1)));
                assert(ev.take(i + 1).drop_last() =~= ev.take(i as int));
                assert(ev.take(i + 1).last() == ev[i as int]);
                assert(merged_prefix(base, ev, i + 1) == merged_prefix(base, ev, i as int).insert(
                    ev[i as int].0,
                    ev[i as int].1,
                ));
                assert(self@ =~= old(self)@.update(
                    old(self)@.len() - 1,
                    merged_prefix(base, ev, i + 1),
                ));
                assert(ev[i as int] == (entries@[i as int].0@, val_view(entries@[i as int].1)));
                assert(capture_of(*self) =~= capture_of(*old(self)) + ev.take(i + 1));
            }
            i = i + 1;
        }
        proof {
            assert(ev.take(entries@.len() as int) =~= ev);
            assert(merged_prefix(base, ev, entries@.len() as int) == merged(base, ev));
        }
    }

    /// Looks a name up through the frame stack, innermost frame first, and
    /// hands back a copy of the bound value.
    pub fn get_var(&self, name: &String) -> (r: Option<Value>)
        ensures
            match r {
                Some(v) => stack_lookup(self@, name@) == Some(val_view(v)),
                None => stack_lookup(self@, name@) is None,
            },
    {
        let mut fi: usize = self.frames.len();
        proof {
            assert(self@.take(self.frames@.len() as int) =~= self@);
        }
        while fi > 0
            invariant
                0 <= fi <= self.frames@.len(),
                stack_lookup(self@, name@) == stack_lookup(self@.take(fi as int), name@),
            decreases fi,
        {
            fi = fi - 1;
            let r = frame_get(&self.frames[fi], name);
            proof {
                assert(self@[fi as int] == frame_map(self.frames@[fi as int]@));
                assert(self@.take(fi + 1).last() == self@[fi as int]);
                assert(self@.take(fi + 1).drop_last() =~= self@.take(fi as int));
            }
            match r {
                Some(v) => {
                    return Some(v);
                },
                None => {},
            }
        }
        proof {
            assert(self@.take(0) =~= Seq::<Map<Seq<char>, ValV>>::empty());
        }
        None
    }
}

/// Every binding visible in a stack of frames, outermost frame first; a
/// later pair shadows an earlier pair of the same name when the list is
/// merged back into a single frame.
pub open spec fn frames_entries(fs: Seq<Vec<(String, Value)>>) -> Seq<(Seq<char>, ValV)>
    decreases fs.len(),
{
    if fs.len() == 0 {
        Seq::empty()
    } else {
        frames_entries(fs.drop_last()) + entries_view(fs.last()@)
    }
}

/// The capture list of a scope: what a block literal snapshots at the
/// moment it becomes a value.
pub open spec fn capture_of(s: Scope) -> Seq<(Seq<char>, ValV)> {
    frames_entries(s.frames@)
}

impl Scope {
    /// Snapshots every visible binding, for closure capture. The snapshot
    /// is a copy: later changes to the scope do not reach it.
    pub fn capture_vars(&self) -> (r: Vec<(String, Value)>)
        ensures
            entries_view(r@) == capture_of(*self),
    {
        let mut out: Vec<(String, Value)> = Vec::new();
        let mut fi: usize = 0;
        proof {
            assert(self.frames@.take(0) =~= Seq::<Vec<(String, Value)>>::empty());
            assert(entries_view(out@) =~= frames_entries(self.frames@.take(0)));
        }
        while fi < self.frames.len()
            invariant
                0 <= fi <= self.frames@.len(),
                entries_view(out@) == frames_entries(self.frames@.take(fi as int)),
            decreases self.frames@.len() - fi,
        {
            let frame = &self.frames[fi];
            let ghost out_before = entries_view(out@);
            let mut ei: usize = 0;
            while ei < frame.len()
                invariant
                    0 <= ei <= frame@.len(),
                    frame@ == self.frames@[fi as int]@,
                    0 <= fi < self.frames@.len(),
                    entries_view(out@) == out_before + entries_view(frame@.take(ei as int)),
                decreases frame@.len() - ei,
            {
                let name = frame[ei].0.clone();
                let value = frame[ei].1.duplicate();
                let ghost before = entries_view(out@);
                out.push((name, value));
                proof {
                    assert(entries_view(out@) =~= before.push(
                        (frame@[ei as int].0@, val_view(frame@[ei as int].1)),
                    ));
                    assert(entries_view(frame@.take(ei + 1)) =~= entries_view(
                        frame@.take(ei as int),
                    ).push((frame@[ei as int].0@, val_view(frame@[ei as int].1))));
                    assert(entries_view(out@) =~= out_before + entries_view(
                        frame@.take(ei + 1),
                    ));
                }
                ei = ei + 1;
            }
            proof {
                assert(frame@.take(frame@.len() as int) =~= frame@);
                assert(self.frames@.take(fi + 1).drop_last() =~= self.frames@.take(fi as int));
                assert(self.frames@.take(fi + 1).last() == self.frames@[fi as int]);
                assert(entries_view(out@) =~= frames_entries(self.frames@.take(fi + 1)));
            }
            fi = fi + 1;
        }
        proof {
            assert(self.frames@.take(self.frames@.len() as int) =~= self.frames@);
        }
        out
    }
}

proof fn lemma_frame_map_congruent(a: Seq<(String, Value)>, b: Seq<(String, Value)>)
    requires
        entries_view(a) == entries_view(b),
    ensures
        frame_map(a) == frame_map(b),
    decreases a.len(),
{
    assert(entries_view(a).len() == a.len());
    assert(entries_view(b).len() == b.len());
    assert(a.len() == b.len());
    if a.len() > 0 {
        assert(entries_view(a.drop_last()) =~= entries_view(b.drop_last())) by {
            assert forall|i: int| 0 <= i < a.len() - 1 implies entries_view(a.drop_last())[i]
                == entries_view(b.drop_last())[i] by {
                assert(entries_view(a)[i] == entries_view(b)[i]);
            }
        }
        lemma_frame_map_congruent(a.drop_last(), b.drop_last());
        assert(entries_view(a)[a.len() - 1] == entries_view(b)[b.len() - 1]);
    }
}

impl Scope {
    /// A deep copy: the same frames, the same bindings.
    pub fn duplicate(&self) -> (r: Scope)
        ensures
            r@ == self@,
            capture_of(r) == capture_of(*self),
            r.depth() == self.depth(),
    {
        let mut frames: Vec<Vec<(String, Value)>> = Vec::new();
        let mut i: usize = 0;
        while i < self.frames.len()
            invariant
                0 <= i <= self.frames@.len(),
                frames@.len() == i,
                forall|j: int|
                    0 <= j < i ==> entries_view(frames@[j]@) == entries_view(self.frames@[j]@),
            decreases self.frames@.len() - i,
        {
            frames.push(crate::value::dup_entries(&self.frames[i]));
            i = i + 1;
        }
        let r = Scope { frames };
        proof {
            assert forall|j: int| 0 <= j < r.frames@.len() implies frame_map(r.frames@[j]@)
                == frame_map(self.frames@[j]@) by {
                lemma_frame_map_congruent(r.frames@[j]@, self.frames@[j]@);
            }
            assert(r@ =~= self@);
            lemma_frames_entries_congruent(r.frames@, self.frames@);
        }
        r
    }
}

proof fn lemma_frames_entries_congruent(
    a: Seq<Vec<(String, Value)>>,
    b: Seq<Vec<(String, Value)>>,
)
    requires
        a.len() == b.len(),
        forall|j: int| 0 <= j < a.len() ==> entries_view(a[j]@) == entries_view(b[j]@),
    ensures
        frames_entries(a) == frames_entries(b),
    decreases a.len(),
{
    if a.len() > 0 {
        lemma_frames_entries_congruent(a.drop_last(), b.drop_last());
    }
}

/// One frame's table after merging a list of bindings into it, in order.
pub open spec fn merged(base: Map<Seq<char>, ValV>, entries: Seq<(Seq<char>, ValV)>) -> Map<
    Seq<char>,
    ValV,
>
    decreases entries.len(),
{
    if entries.len() == 0 {
        base
    } else {
        merged(base, entries.drop_last()).insert(entries.last().0, entries.last().1)
    }
}

/// The merge of only the first `k` bindings.
pub open spec fn merged_prefix(
    base: Map<Seq<char>, ValV>,
    entries: Seq<(Seq<char>, ValV)>,
    k: int,
) -> Map<Seq<char>, ValV> {
    merged(base, entries.take(k))
}

/// After entering a scope, binding a name there, and exiting the scope
/// again, looking the name up gives exactly what it gave before: the
/// binding does not leak across the block boundary, for this or any other
/// name.
pub proof fn lemma_scope_nesting(s: Scope, name: String, v: Value, probe: Seq<char>)
    ensures
        ({
            let entered = s@.push(Map::<Seq<char>, ValV>::empty());
            let bound = entered.update(
                entered.len() - 1,
                entered.last().insert(name@, val_view(v)),
            );
            let exited = bound.drop_last();
            stack_lookup(exited, probe) == stack_lookup(s@, probe)
        }),
{
    let entered = s@.push(Map::<Seq<char>, ValV>::empty());
    let bound = entered.update(entered.len() - 1, entered.last().insert(name@, val_view(v)));
    let exited = bound.drop_last();
    assert(exited =~= s@);
}

} // verus!
