//! Collector statistics and object references.
use vstd::prelude::*;

verus! {

/// Counts kept by a collector.
#[derive(Clone, Copy, Debug)]
pub struct GcStats {
    pub total_allocated: usize,
    pub total_freed: usize,
    pub current_allocated: usize,
    pub collections_performed: usize,
}

impl Default for GcStats {
    /// All counts zero.
    fn default() -> (s: GcStats)
        ensures
            s.total_allocated == 0 && s.total_freed == 0 && s.current_allocated == 0 && s.collections_performed == 0,
    {
        GcStats { total_allocated: 0, total_freed: 0, current_allocated: 0, collections_performed: 0 }
    }
}

impl GcStats {
    /// The live count is what was allocated and not freed.
    pub open spec fn balanced(&self) -> bool {
        self.total_allocated == self.total_freed + self.current_allocated
    }
}

/// A reference to a collected object.
#[derive(Clone, Copy, Debug)]
pub struct GcRef {
    id: usize,
    generation: usize,
}

impl GcRef {
    /// The object number of the reference.
    pub closed spec fn spec_id(&self) -> usize {
        self.id
    }

    /// A reference to object `id`, of generation 0.
    pub fn new(id: usize) -> (r: GcRef)
        ensures
            r.spec_id() == id,
    {
        GcRef { id, generation: 0 }
    }

    /// The object number of the reference.
    pub fn id(&self) -> (n: usize)
        ensures
            n == self.spec_id(),
    {
        self.id
    }
}

} // verus!
