//! Garbage collection engines and their statistics.
pub mod mark_sweep;
pub mod no_gc;
pub mod stats;

pub use mark_sweep::MarkSweepGc;
pub use no_gc::NoGc;
pub use stats::{GcRef, GcStats};

use vstd::prelude::*;

verus! {

/// The collector a machine runs with.
pub enum GcEngine {
    NoGc(NoGc),
    MarkSweep(MarkSweepGc),
}

impl GcEngine {
    /// The collector's statistics.
    pub fn stats(&self) -> (s: GcStats)
        ensures
            match self {
                GcEngine::NoGc(g) => s == g.spec_stats(),
                GcEngine::MarkSweep(g) => s == g.spec_stats(),
            },
    {
        match self {
            GcEngine::NoGc(g) => g.stats(),
            GcEngine::MarkSweep(g) => g.stats(),
        }
    }
}

} // verus!
