//! Profiling of function calls and machine resources.
pub mod profiler;

pub use profiler::{FunctionProfiler, Profiler};
