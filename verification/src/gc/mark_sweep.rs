//! A mark-and-sweep collector.
use vstd::prelude::*;
use crate::gc::stats::{GcRef, GcStats};
use crate::vm::value::Value;

verus! {

/// A mark-and-sweep collector: the objects with their numbers and marks.
pub struct MarkSweepGc {
    objects: Vec<(usize, Value, bool)>,
    next_id: usize,
    stats: GcStats,
    debug_mode: bool,
}

impl MarkSweepGc {
    /// The collector's statistics.
    pub closed spec fn spec_stats(&self) -> GcStats {
        self.stats
    }

    /// Whether the collector was made to report its work.
    pub closed spec fn spec_debug_mode(&self) -> bool {
        self.debug_mode
    }

    /// The number the next allocation gets.
    pub closed spec fn spec_next_id(&self) -> usize {
        self.next_id
    }

    /// The numbers of the live objects, in allocation order.
    pub closed spec fn ids(&self) -> Seq<usize> {
        Seq::new(self.objects@.len(), |i: int| self.objects@[i].0)
    }

    /// The marks of the live objects, in allocation order.
    pub closed spec fn marks(&self) -> Seq<bool> {
        Seq::new(self.objects@.len(), |i: int| self.objects@[i].2)
    }

    /// The live count is the number of objects, the statistics balance,
    /// every number was given out once, in increasing order.
    pub closed spec fn wf(&self) -> bool {
        &&& self.stats.current_allocated == self.objects@.len()
        &&& self.stats.total_allocated == self.stats.total_freed + self.stats.current_allocated
        &&& self.next_id == self.stats.total_allocated
        &&& forall|i: int, j: int| 0 <= i < j < self.objects@.len() ==> self.objects@[i].0 < self.objects@[j].0
        &&& forall|i: int| 0 <= i < self.objects@.len() ==> self.objects@[i].0 < self.next_id
    }

    /// An empty collector.
    pub fn new(debug_mode: bool) -> (g: MarkSweepGc)
        ensures
            g.wf(),
            g.ids() == Seq::<usize>::empty(),
            g.spec_next_id() == 0,
            g.spec_stats().total_allocated == 0 && g.spec_stats().collections_performed == 0,
            g.spec_debug_mode() == debug_mode,
    {
        let g = MarkSweepGc {
            objects: Vec::new(),
            next_id: 0,
            stats: GcStats { total_allocated: 0, total_freed: 0, current_allocated: 0, collections_performed: 0 },
            debug_mode,
        };
        assert(g.ids() =~= Seq::<usize>::empty());
        g
    }

    /// Allocates an unmarked object and gives its reference.
    pub fn allocate(&mut self, value: Value) -> (r: GcRef)
        requires
            old(self).wf(),
            old(self).spec_next_id() < usize::MAX,
        ensures
            final(self).wf(),
            r.spec_id() == old(self).spec_next_id(),
            final(self).ids() == old(self).ids().push(old(self).spec_next_id()),
            final(self).marks() == old(self).marks().push(false),
            final(self).spec_next_id() == old(self).spec_next_id() + 1,
            final(self).spec_stats().total_allocated == old(self).spec_stats().total_allocated + 1,
            final(self).spec_stats().total_freed == old(self).spec_stats().total_freed,
            final(self).spec_stats().collections_performed == old(self).spec_stats().collections_performed,
    {
        let id = self.next_id;
        self.next_id = self.next_id + 1;
        self.objects.push((id, value, false));
        self.stats.total_allocated = self.stats.total_allocated + 1;
        self.stats.current_allocated = self.stats.current_allocated + 1;
        assert(self.ids() =~= old(self).ids().push(id));
        assert(self.marks() =~= old(self).marks().push(false));
        GcRef::new(id)
    }

    /// Marks every object (the roots are not traced).
    pub fn mark_from_roots(&mut self, roots: &[Value])
        requires
            old(self).wf(),
        ensures
            final(self).wf(),
            final(self).ids() == old(self).ids(),
            final(self).marks() == Seq::new(old(self).ids().len(), |i: int| true),
            final(self).spec_next_id() == old(self).spec_next_id(),
            final(self).spec_stats() == old(self).spec_stats(),
    {
        let mut i: usize = 0;
        while i < self.objects.len()
            invariant
                i <= self.objects@.len(),
                self.objects@.len() == old(self).objects@.len(),
                forall|j: int| 0 <= j < self.objects@.len() ==> self.objects@[j].0 == old(self).objects@[j].0,
                forall|j: int| 0 <= j < i ==> self.objects@[j].2,
                self.next_id == old(self).next_id,
                self.stats == old(self).stats,
            decreases self.objects.len() - i,
        {
            let (id, v, _) = self.objects.remove(i);
            self.objects.insert(i, (id, v, true));
            i = i + 1;
        }
        assert(self.ids() =~= old(self).ids());
        assert(self.marks() =~= Seq::new(old(self).ids().len(), |i: int| true));
    }

    /// Frees the unmarked objects, clears the marks of the others, and gives
    /// the number freed.
    pub fn sweep(&mut self) -> (n: usize)
        requires
            old(self).wf(),
            old(self).spec_stats().collections_performed < usize::MAX,
        ensures
            final(self).wf(),
            n == old(self).ids().len() - final(self).ids().len(),
            final(self).ids() == marked_ids(old(self).ids(), old(self).marks()),
            forall|i: int| 0 <= i < final(self).marks().len() ==> !final(self).marks()[i],
            final(self).spec_next_id() == old(self).spec_next_id(),
            final(self).spec_stats().total_allocated == old(self).spec_stats().total_allocated,
            final(self).spec_stats().total_freed == old(self).spec_stats().total_freed + n,
            final(self).spec_stats().collections_performed == old(self).spec_stats().collections_performed + 1,
    {
        let initial = self.objects.len();
        let ghost old_ids = self.ids();
        let ghost old_marks = self.marks();
        let mut kept: Vec<(usize, Value, bool)> = Vec::new();
        let mut objects = Vec::new();
        std::mem::swap(&mut objects, &mut self.objects);
        let mut i: usize = 0;
        assert(old_ids.take(0) =~= Seq::<usize>::empty());
        assert(Seq::new(kept@.len(), |j: int| kept@[j].0) =~= Seq::<usize>::empty());
        while i < objects.len()
            invariant
                i <= objects@.len(),
                objects@.len() == initial,
                old_ids == Seq::new(objects@.len(), |j: int| objects@[j].0),
                old_marks == Seq::new(objects@.len(), |j: int| objects@[j].2),
                forall|a: int, b: int| 0 <= a < b < objects@.len() ==> objects@[a].0 < objects@[b].0,
                forall|a: int| 0 <= a < objects@.len() ==> objects@[a].0 < self.next_id,
                Seq::new(kept@.len(), |j: int| kept@[j].0) == marked_ids(old_ids.take(i as int), old_marks.take(i as int)),
                forall|j: int| 0 <= j < kept@.len() ==> !kept@[j].2,
                forall|a: int, b: int| 0 <= a < b < kept@.len() ==> kept@[a].0 < kept@[b].0,
                forall|a: int, k: int| 0 <= a < kept@.len() && i <= k < objects@.len() ==> #[trigger] kept@[a].0 < #[trigger] objects@[k].0,
                forall|a: int| 0 <= a < kept@.len() ==> #[trigger] kept@[a].0 < self.next_id,
                kept@.len() <= i,
            decreases objects.len() - i,
        {
            let ghost before = Seq::new(kept@.len(), |j: int| kept@[j].0);
            assert(old_ids.take(i + 1).drop_last() =~= old_ids.take(i as int));
            assert(old_marks.take(i + 1).drop_last() =~= old_marks.take(i as int));
            assert(old_ids.take(i + 1).last() == objects@[i as int].0);
            assert(old_marks.take(i + 1).last() == objects@[i as int].2);
            if objects[i].2 {
                let id = objects[i].0;
                let v = objects[i].1.copy();
                kept.push((id, v, false));
                assert(Seq::new(kept@.len(), |j: int| kept@[j].0) =~= before.push(id));
            }
            i = i + 1;
        }
        assert(old_ids.take(initial as int) =~= old_ids);
        assert(old_marks.take(initial as int) =~= old_marks);
        self.objects = kept;
        proof {
            lemma_marked_len(old_ids, old_marks);
        }
        assert(self.ids() =~= marked_ids(old_ids, old_marks));
        let collected = initial - self.objects.len();
        self.stats.total_freed = self.stats.total_freed + collected;
        self.stats.current_allocated = self.stats.current_allocated - collected;
        self.stats.collections_performed = self.stats.collections_performed + 1;
        collected
    }

    /// The statistics.
    pub fn stats(&self) -> (s: GcStats)
        ensures
            s == self.spec_stats(),
    {
        self.stats
    }
}


/// The numbers of the marked objects, in order.
pub open spec fn marked_ids(ids: Seq<usize>, marks: Seq<bool>) -> Seq<usize>
    decreases ids.len(),
{
    if ids.len() == 0 {
        Seq::empty()
    } else if marks.len() > 0 && marks.last() {
        marked_ids(ids.drop_last(), marks.drop_last()).push(ids.last())
    } else {
        marked_ids(ids.drop_last(), marks.drop_last())
    }
}

proof fn lemma_marked_len(ids: Seq<usize>, marks: Seq<bool>)
    ensures
        marked_ids(ids, marks).len() <= ids.len(),
    decreases ids.len(),
{
    if ids.len() > 0 {
        lemma_marked_len(ids.drop_last(), marks.drop_last());
    }
}


/// In a collector that its operations built, the statistics balance: what
/// was allocated is what was freed plus what is live, and the live count is
/// the number of objects held.
pub proof fn law_stats_balance(g: &MarkSweepGc)
    requires
        g.wf(),
    ensures
        g.spec_stats().balanced(),
        g.spec_stats().current_allocated == g.ids().len(),
{
}

} // verus!
