use vstd::prelude::*;

use crate::classes::ClassSet;
use crate::ops::Operation;
use crate::ops::apply;
use crate::ops::apply_all;
use crate::ops::apply_op;

verus! {

broadcast use vstd::std_specs::vec::group_vec_axioms;

/// The state after firing each entry of `entries`, first to last.
pub open spec fn apply_entries(st: Set<Seq<char>>, entries: Seq<(u64, Operation)>) -> Set<
    Seq<char>,
>
    decreases entries.len(),
{
    if entries.len() == 0 {
        st
    } else {
        apply_entries(apply_op(st, entries[0].1), entries.drop_first())
    }
}

/// Appending one entry to a timeline fires it after the rest.
pub proof fn lemma_apply_entries_snoc(
    st: Set<Seq<char>>,
    entries: Seq<(u64, Operation)>,
    entry: (u64, Operation),
)
    ensures
        apply_entries(st, entries.push(entry)) == apply_op(apply_entries(st, entries), entry.1),
    decreases entries.len(),
{
    if entries.len() == 0 {
        reveal_with_fuel(apply_entries, 2);
        assert(entries.push(entry)[0] == entry);
        assert(entries.push(entry).drop_first() =~= Seq::<(u64, Operation)>::empty());
    } else {
        assert(entries.push(entry)[0] == entries[0]);
        assert(entries.push(entry).drop_first() =~= entries.drop_first().push(entry));
        lemma_apply_entries_snoc(apply_op(st, entries[0].1), entries.drop_first(), entry);
    }
}

/// Firing a concatenation fires the first part in full, then the second.
pub proof fn lemma_apply_entries_concat(
    st: Set<Seq<char>>,
    a: Seq<(u64, Operation)>,
    b: Seq<(u64, Operation)>,
)
    ensures
        apply_entries(st, a + b) == apply_entries(apply_entries(st, a), b),
    decreases a.len(),
{
    if a.len() == 0 {
        assert(a + b =~= b);
    } else {
        assert((a + b)[0] == a[0]);
        assert((a + b).drop_first() =~= a.drop_first() + b);
        lemma_apply_entries_concat(apply_op(st, a[0].1), a.drop_first(), b);
    }
}

/// Entries fire strictly in list order: at any cut point `k`, every entry
/// before `k` is fully applied before any entry at or after `k` begins.
pub proof fn lemma_earlier_entries_apply_first(
    st: Set<Seq<char>>,
    entries: Seq<(u64, Operation)>,
    k: int,
)
    requires
        0 <= k <= entries.len(),
    ensures
        apply_entries(st, entries) == apply_entries(
            apply_entries(st, entries.take(k)),
            entries.skip(k),
        ),
{
    assert(entries.take(k) + entries.skip(k) =~= entries);
    lemma_apply_entries_concat(st, entries.take(k), entries.skip(k));
}

/// A Group entry contributes exactly its children's effects, in listed order,
/// with no other entry's effect interleaved among them.
pub proof fn lemma_group_entry_atomic(
    st: Set<Seq<char>>,
    before: Seq<(u64, Operation)>,
    offset: u64,
    children: Vec<Operation>,
    after: Seq<(u64, Operation)>,
)
    ensures
        apply_entries(st, before + seq![(offset, Operation::Group(children))] + after)
            == apply_entries(apply_all(apply_entries(st, before), children@), after),
{
    let mid = seq![(offset, Operation::Group(children))];
    lemma_apply_entries_concat(st, before + mid, after);
    lemma_apply_entries_concat(st, before, mid);
    assert((before + mid) + after =~= before + mid + after);
    assert(apply_entries(apply_entries(st, before), mid) == apply_op(
        apply_entries(st, before),
        Operation::Group(children),
    )) by {
        lemma_apply_entries_snoc(
            apply_entries(st, before),
            Seq::empty(),
            (offset, Operation::Group(children)),
        );
        assert(Seq::<(u64, Operation)>::empty().push((offset, Operation::Group(children))) =~= mid);
    };
}

/// The wait before an entry fires: the gap from the run's clock to the entry's
/// offset, clamped to zero when the offset does not lie ahead.
pub open spec fn wait_ms(elapsed: u64, offset: u64) -> u64 {
    if offset >= elapsed {
        (offset - elapsed) as u64
    } else {
        0
    }
}

/// One run of a timeline against one resolved target.
///
/// The run owns its timeline; it fires entries strictly in list order, each
/// exactly once, and keeps a clock of where on the timeline it stands. The
/// waiting itself (a cooperative sleep) is the caller's affair: the run only
/// says how long to wait and what to apply.
pub struct Run {
    timeline: Vec<(u64, Operation)>,
    index: usize,
    elapsed: u64,
}

impl Run {
    /// The entries this run fires.
    pub closed spec fn entries(&self) -> Seq<(u64, Operation)> {
        self.timeline@
    }

    /// How many entries have fired so far.
    pub closed spec fn position(&self) -> int {
        self.index as int
    }

    /// The run's clock: the offset the timeline has advanced to.
    pub closed spec fn elapsed_ms(&self) -> u64 {
        self.elapsed
    }

    pub open spec fn wf(&self) -> bool {
        0 <= self.position() <= self.entries().len()
    }

    /// A fresh run over `timeline`, nothing fired yet.
    pub fn new(timeline: Vec<(u64, Operation)>) -> (r: Run)
        ensures
            r.entries() == timeline@,
            r.position() == 0,
            r.elapsed_ms() == 0,
            r.wf(),
    {
        Run { timeline, index: 0, elapsed: 0 }
    }

    /// Is every entry fired?
    pub fn done(&self) -> (r: bool)
        requires
            self.wf(),
        ensures
            r == (self.position() == self.entries().len()),
    {
        self.index == self.timeline.len()
    }

    /// Milliseconds to wait before the next entry fires.
    pub fn next_wait(&self) -> (r: u64)
        requires
            self.wf(),
            self.position() < self.entries().len(),
        ensures
            r == wait_ms(self.elapsed_ms(), self.entries()[self.position()].0),
    {
        let offset = self.timeline[self.index].0;
        if offset >= self.elapsed {
            offset - self.elapsed
        } else {
            0
        }
    }

    /// The operation about to fire.
    pub fn current(&self) -> (r: &Operation)
        requires
            self.wf(),
            self.position() < self.entries().len(),
        ensures
            *r == self.entries()[self.position()].1,
    {
        &self.timeline[self.index].1
    }

    /// Note the next entry as fired: move the clock to its offset and step past
    /// it. The caller applies the operation itself (see `current`).
    pub fn advance(&mut self)
        requires
            old(self).wf(),
            old(self).position() < old(self).entries().len(),
        ensures
            final(self).wf(),
            final(self).entries() == old(self).entries(),
            final(self).position() == old(self).position() + 1,
            final(self).elapsed_ms() == old(self).entries()[old(self).position()].0,
    {
        self.elapsed = self.timeline[self.index].0;
        let n = self.timeline.len();
        assert(self.index < n);
        self.index = self.index + 1;
    }

    /// Fire the next entry against the model target, if one is left: apply its
    /// operation and step past it.
    pub fn fire_next(&mut self, target: &mut ClassSet) -> (fired: bool)
        requires
            old(self).wf(),
            old(target).wf(),
        ensures
            final(self).wf(),
            final(target).wf(),
            final(self).entries() == old(self).entries(),
            fired == (old(self).position() < old(self).entries().len()),
            fired ==> {
                &&& final(self).position() == old(self).position() + 1
                &&& final(self).elapsed_ms() == old(self).entries()[old(self).position()].0
                &&& final(target)@ == apply_op(
                    old(target)@,
                    old(self).entries()[old(self).position()].1,
                )
            },
            !fired ==> *final(self) == *old(self) && *final(target) == *old(target),
    {
        if self.index < self.timeline.len() {
            apply(target, &self.timeline[self.index].1);
            self.advance();
            true
        } else {
            false
        }
    }

    /// Fire the first `count` entries of a fresh run, then stop: a run whose
    /// owner is torn down after `count` entries leaves exactly their effects
    /// behind, and no more.
    pub fn fire_count(&mut self, target: &mut ClassSet, count: usize)
        requires
            old(self).wf(),
            old(target).wf(),
            old(self).position() == 0,
            count <= old(self).entries().len(),
        ensures
            final(self).wf(),
            final(target).wf(),
            final(self).entries() == old(self).entries(),
            final(self).position() == count,
            final(target)@ == apply_entries(old(target)@, old(self).entries().take(count as int)),
    {
        let mut k: usize = 0;
        assert(old(self).entries().take(0) =~= Seq::<(u64, Operation)>::empty());
        while k < count
            invariant
                k <= count,
                self.wf(),
                target.wf(),
                count <= self.entries().len(),
                self.entries() == old(self).entries(),
                self.position() == k,
                target@ == apply_entries(old(target)@, old(self).entries().take(k as int)),
            decreases count - k,
        {
            let fired = self.fire_next(target);
            proof {
                lemma_apply_entries_snoc(
                    old(target)@,
                    old(self).entries().take(k as int),
                    old(self).entries()[k as int],
                );
                assert(old(self).entries().take(k as int + 1) =~= old(self).entries().take(
                    k as int,
                ).push(old(self).entries()[k as int]));
            }
            k += 1;
        }
    }

    /// Drive a fresh run to completion against the model target. The final
    /// membership state is the sequential fold of every entry's effect, in
    /// list order.
    pub fn run_to_end(&mut self, target: &mut ClassSet)
        requires
            old(self).wf(),
            old(target).wf(),
            old(self).position() == 0,
        ensures
            final(self).wf(),
            final(target).wf(),
            final(self).entries() == old(self).entries(),
            final(self).position() == old(self).entries().len(),
            final(target)@ == apply_entries(old(target)@, old(self).entries()),
    {
        let n = self.timeline.len();
        self.fire_count(target, n);
        proof {
            assert(old(self).entries().take(n as int) =~= old(self).entries());
        }
    }
}

/// A timeline handle, ready to be started against a target that may or may not
/// ever resolve.
pub struct UseAnimate {
    ops: Vec<(u64, Operation)>,
}

impl Clone for UseAnimate {
    /// A structural copy. Unverified callers use it to hand the timeline to a
    /// spawned task; nothing in the proofs depends on it.
    fn clone(&self) -> (r: Self) {
        let mut v: Vec<(u64, Operation)> = Vec::new();
        let mut k: usize = 0;
        while k < self.ops.len()
            invariant
                k <= self.ops.len(),
            decreases self.ops.len() - k,
        {
            let entry = &self.ops[k];
            v.push((entry.0, entry.1.clone()));
            k += 1;
        }
        UseAnimate { ops: v }
    }
}

impl UseAnimate {
    /// The authored entries, in execution order.
    pub closed spec fn entries(&self) -> Seq<(u64, Operation)> {
        self.ops@
    }

    /// Begin a run once the target's resolution outcome is known. A resolved
    /// target yields a fresh run over the authored entries; a target that
    /// never resolves yields nothing, and no operation is ever applied.
    pub fn start(self, resolved: bool) -> (r: Option<Run>)
        ensures
            resolved ==> {
                &&& r is Some
                &&& r->0.entries() == self.entries()
                &&& r->0.position() == 0
                &&& r->0.elapsed_ms() == 0
                &&& r->0.wf()
            },
            !resolved ==> r is None,
    {
        if resolved {
            Some(Run::new(self.ops))
        } else {
            None
        }
    }
}

/// Build the timeline handle from authored entries. The entries are taken as
/// given, in the intended execution order; ordering them is the authoring
/// layer's affair.
pub fn _use_animate(ops: Vec<(u64, Operation)>) -> (r: UseAnimate)
    ensures
        r.entries() == ops@,
{
    UseAnimate { ops }
}

} // verus!
