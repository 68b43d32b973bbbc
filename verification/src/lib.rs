//! TinyTotVM: a small virtual machine with a stack-based and a register-based
//! execution mode, an assembler for its textual program format, a binary
//! bytecode format, a Lisp front end and a peephole optimizer.

pub mod assembler;
pub mod cli;
pub mod clock;
pub mod bytecode;
pub mod compiler;
pub mod display;
pub mod examples;
pub mod concurrency;
pub mod gc;
pub mod ir;
pub mod lisp_compiler;
pub mod optimizer;
pub mod profiling;
pub mod readback;
pub mod text;
pub mod vm;

use vstd::prelude::*;

verus! {

/// How results and statistics are shown.
#[derive(Clone, Copy, PartialEq, Eq, Structural, Debug)]
pub enum OutputMode {
    PrettyTable,
    Plain,
}

/// The settings of a run of the machine.
#[derive(Debug)]
pub struct VMConfig {
    pub output_mode: OutputMode,
    pub run_tests: bool,
    pub gc_debug: bool,
    pub gc_stats: bool,
    pub debug_mode: bool,
    pub optimize_mode: bool,
    pub gc_type: String,
    pub trace_enabled: bool,
    pub profile_enabled: bool,
    pub smp_enabled: bool,
    pub trace_procs: bool,
    pub profile_procs: bool,
    pub use_ir: bool,
}

impl Default for VMConfig {
    /// Tables, the mark-and-sweep collector and the multi-core scheduler;
    /// every other option off.
    fn default() -> (c: VMConfig)
        ensures
            c.output_mode == OutputMode::PrettyTable,
            !c.run_tests && !c.gc_debug && !c.gc_stats && !c.debug_mode && !c.optimize_mode,
            c.gc_type@ == "mark-sweep"@,
            !c.trace_enabled && !c.profile_enabled,
            c.smp_enabled,
            !c.trace_procs && !c.profile_procs && !c.use_ir,
    {
        VMConfig {
            output_mode: OutputMode::PrettyTable,
            run_tests: false,
            gc_debug: false,
            gc_stats: false,
            debug_mode: false,
            optimize_mode: false,
            gc_type: "mark-sweep".to_owned(),
            trace_enabled: false,
            profile_enabled: false,
            smp_enabled: true,
            trace_procs: false,
            profile_procs: false,
            use_ir: false,
        }
    }
}

/// The scheduling state of a process.
#[derive(Clone, Copy, PartialEq, Eq, Structural, Debug)]
pub enum ProcState {
    Ready,
    Running,
    Waiting,
    Exited,
}

} // verus!
