//! Supervision: how a supervisor restarts its children.
use vstd::prelude::*;
use crate::vm::opcode::{OpCode, ProcId, program_model, OpCodeModel};
use crate::vm::opcode::copy_program;
use crate::text::str_eq;
use core::time::Duration;

verus! {

/// Which children a supervisor restarts when one fails.
#[derive(Clone, Copy, PartialEq, Eq, Structural, Debug)]
pub enum RestartStrategy {
    /// Only the failed child.
    OneForOne,
    /// All children.
    OneForAll,
    /// The failed child and those started after it.
    RestForOne,
}

/// Whether a child is a worker or a supervisor itself.
#[derive(Clone, Copy, PartialEq, Eq, Structural, Debug)]
pub enum ChildType {
    Worker,
    Supervisor,
}

/// How a child is shut down.
#[derive(Clone, Copy, Debug)]
pub enum Shutdown {
    /// At once.
    Brutal,
    /// With time to finish.
    Timeout(Duration),
    /// Waiting for as long as it takes.
    Infinity,
}

/// When a child is restarted.
#[derive(Clone, Copy, PartialEq, Eq, Structural, Debug)]
pub enum RestartPolicy {
    /// Always.
    Permanent,
    /// Never.
    Temporary,
    /// Only after an abnormal exit.
    Transient,
}

/// A child of a supervisor: its name, its program and how it is managed.
#[derive(Debug)]
pub struct ChildSpec {
    pub id: String,
    pub instructions: Vec<OpCode>,
    pub restart: RestartPolicy,
    pub shutdown: Shutdown,
    pub child_type: ChildType,
}

impl ChildSpec {
    /// A copy with the same name, program and settings.
    pub fn copy(&self) -> (c: ChildSpec)
        ensures
            c.id@ == self.id@,
            program_model(c.instructions@) == program_model(self.instructions@),
            c.restart == self.restart,
            c.child_type == self.child_type,
    {
        ChildSpec {
            id: self.id.clone(),
            instructions: copy_program(&self.instructions),
            restart: self.restart,
            shutdown: self.shutdown,
            child_type: self.child_type,
        }
    }
}

/// A supervisor's strategy, its restart limit (at most `intensity` restarts
/// per `period`) and its children.
#[derive(Debug)]
pub struct SupervisorSpec {
    pub strategy: RestartStrategy,
    pub intensity: usize,
    pub period: Duration,
    pub children: Vec<ChildSpec>,
}

/// A running child: its process, its specification and how often it was
/// restarted.
#[derive(Debug)]
pub struct ChildState {
    pub pid: ProcId,
    pub spec: ChildSpec,
    pub restart_count: usize,
}

/// Whether a child that exited for `exit_reason` is restarted under its
/// policy: always, never, or only when the reason is not `"normal"`.
pub open spec fn restarts(policy: RestartPolicy, exit_reason: Seq<char>) -> bool {
    match policy {
        RestartPolicy::Permanent => true,
        RestartPolicy::Temporary => false,
        RestartPolicy::Transient => exit_reason != "normal"@,
    }
}

/// Whether the child is restarted after exiting for `exit_reason`.
pub fn should_restart_child(child_spec: &ChildSpec, exit_reason: &str) -> (b: bool)
    ensures
        b == restarts(child_spec.restart, exit_reason@),
{
    match child_spec.restart {
        RestartPolicy::Permanent => true,
        RestartPolicy::Temporary => false,
        RestartPolicy::Transient => !str_eq(exit_reason, "normal"),
    }
}

} // verus!
