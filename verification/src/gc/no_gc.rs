//! A collector that never frees anything.
use vstd::prelude::*;
use crate::gc::stats::{GcRef, GcStats};
use crate::vm::value::Value;

verus! {

/// A collector that counts allocations and never frees.
#[derive(Debug)]
pub struct NoGc {
    next_id: usize,
    stats: GcStats,
}

impl NoGc {
    /// The collector's statistics.
    pub closed spec fn spec_stats(&self) -> GcStats {
        self.stats
    }

    /// The number the next allocation gets.
    pub closed spec fn spec_next_id(&self) -> usize {
        self.next_id
    }

    /// Nothing is ever freed, and every allocation is counted.
    pub closed spec fn wf(&self) -> bool {
        &&& self.stats.total_freed == 0
        &&& self.stats.current_allocated == self.stats.total_allocated
        &&& self.next_id == self.stats.total_allocated
    }

    /// A collector with nothing allocated.
    pub fn new() -> (g: NoGc)
        ensures
            g.wf(),
            g.spec_next_id() == 0,
            g.spec_stats().total_allocated == 0,
            g.spec_stats().collections_performed == 0,
    {
        NoGc { next_id: 0, stats: GcStats { total_allocated: 0, total_freed: 0, current_allocated: 0, collections_performed: 0 } }
    }

    /// Counts an allocation and gives its reference.
    pub fn allocate(&mut self, value: Value) -> (r: GcRef)
        requires
            old(self).wf(),
            old(self).spec_next_id() < usize::MAX,
        ensures
            final(self).wf(),
            r.spec_id() == old(self).spec_next_id(),
            final(self).spec_next_id() == old(self).spec_next_id() + 1,
            final(self).spec_stats().total_allocated == old(self).spec_stats().total_allocated + 1,
            final(self).spec_stats().collections_performed == old(self).spec_stats().collections_performed,
    {
        let id = self.next_id;
        self.next_id = self.next_id + 1;
        self.stats.total_allocated = self.stats.total_allocated + 1;
        self.stats.current_allocated = self.stats.current_allocated + 1;
        GcRef::new(id)
    }

    /// Marks nothing.
    pub fn mark_from_roots(&mut self, roots: &[Value])
        ensures
            *final(self) == *old(self),
    {
    }

    /// Counts a collection that frees nothing.
    pub fn sweep(&mut self) -> (n: usize)
        requires
            old(self).wf(),
            old(self).spec_stats().collections_performed < usize::MAX,
        ensures
            final(self).wf(),
            n == 0,
            final(self).spec_next_id() == old(self).spec_next_id(),
            final(self).spec_stats() == (GcStats {
                collections_performed: (old(self).spec_stats().collections_performed + 1) as usize,
                ..old(self).spec_stats()
            }),
    {
        self.stats.collections_performed = self.stats.collections_performed + 1;
        0
    }

    /// The statistics.
    pub fn stats(&self) -> (s: GcStats)
        ensures
            s == self.spec_stats(),
    {
        self.stats
    }
}


/// In a collector that never frees, every allocation stays live: the
/// statistics balance with nothing freed.
pub proof fn law_nothing_freed(g: &NoGc)
    requires
        g.wf(),
    ensures
        g.spec_stats().balanced(),
        g.spec_stats().total_freed == 0,
{
}

} // verus!
