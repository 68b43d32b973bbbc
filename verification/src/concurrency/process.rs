//! A lightweight process: a stack machine with a mailbox, monitors, links
//! and supervision. A step handles the process's own state; sending,
//! spawning, the name registry, printing, floating-point arithmetic,
//! imports and the clock are requests that the scheduler completes.
use vstd::prelude::*;
use crate::ProcState;
use crate::concurrency::messages::{Message, MessageModel, messages_model};
use crate::concurrency::proc_model::{PModel, PRequest, PStep, pvalue, adv, drain, elem_at, exit_from, exit_notices, exited, first_match, key_at, pattern_matches, matches_any, monitor_ref, parith, pexec, ppush, pstep, pushed, set_add, set_del, table_del, table_get, table_put, take_message, text, pid_value, DeliveryModel, send_done, registry_done, restart_done, executes, reply_text};
use crate::concurrency::supervisor::{ChildSpec, ChildState, SupervisorSpec};
use crate::gc::{GcEngine, MarkSweepGc};
use crate::ir::vm::{FloatTest, IntOp};
use crate::text::{append_chars, chars_of, nat_text, str_eq, string_of, u64_text};
use crate::vm::equality::values_equal;
use crate::vm::errors::{VMError, VMErrorModel, underflow};
use crate::vm::machine::{MachineEffect, Num, VM, is_value, is_value_op, mismatch2, mismatch_two, truth};
use crate::vm::memory::ExceptionHandler;
use crate::vm::opcode::{MessagePattern, OpCode, OpCodeModel, PatternModel, ProcId, opcode_model, pattern_model, patterns_model, program_model};
use crate::vm::value::{FloatOp, Value, ValueModel, entries_model, float_is_zero, strings_model, values_model};
use crate::vm::import::{circular_error, circular_import, find_module, is_loading, modules_model, pop_loading, put_module};

verus! {

/// A process.
pub struct TinyProc {
    pub id: ProcId,
    pub state: ProcState,
    pub mailbox: Vec<Message>,
    pub reduction_count: usize,
    pub max_reductions: usize,
    pub waiting_for_message: bool,
    /// Monitor reference to the monitored process.
    pub monitors: Vec<(String, ProcId)>,
    /// Monitoring process to its monitor reference.
    pub monitored_by: Vec<(ProcId, String)>,
    pub linked_processes: Vec<ProcId>,
    pub exit_reason: Option<String>,
    pub trap_exit: bool,
    pub supervisor_spec: Option<SupervisorSpec>,
    pub supervised_children: Vec<(String, ChildState)>,
    pub supervisor_pid: Option<ProcId>,
    pub restart_intensity_count: usize,
    pub stack: Vec<Value>,
    pub instructions: Vec<OpCode>,
    pub ip: usize,
    pub call_stack: Vec<usize>,
    pub variables: Vec<Vec<(String, Value)>>,
    pub try_stack: Vec<ExceptionHandler>,
    pub exports: Vec<(String, Value)>,
    pub loaded_modules: Vec<(String, Vec<(String, Value)>)>,
    pub loading_stack: Vec<String>,
    pub lambda_captures: Vec<(String, Value)>,
    pub max_stack_size: usize,
    pub instruction_count: usize,
    pub debug_mode: bool,
    pub breakpoints: Vec<usize>,
    pub gc_engine: GcEngine,
    pub gc_stats_enabled: bool,
    pub trace_enabled: bool,
}

/// What a step asks of the scheduler (see [`PRequest`]).
#[derive(Debug)]
pub enum ProcRequest {
    Continue,
    Print(Value),
    Arith { op: FloatOp, a: Num, b: Num },
    Test { test: FloatTest, a: u64, b: u64 },
    DivideOverflow,
    Spawn(Option<String>),
    SendChecked { to: ProcId, msg: Message },
    Register(String),
    Unregister(String),
    Whereis(String),
    SendNamed(String, Value),
    RestartWindow,
    Import(String),
}

impl View for ProcRequest {
    type V = PRequest;

    open spec fn view(&self) -> PRequest {
        match self {
            ProcRequest::Continue => PRequest::Continue,
            ProcRequest::Print(v) => PRequest::Print(v@),
            ProcRequest::Arith { op, a, b } => PRequest::Arith { op: *op, a: *a, b: *b },
            ProcRequest::Test { test, a, b } => PRequest::Test { test: *test, a: *a, b: *b },
            ProcRequest::DivideOverflow => PRequest::DivideOverflow,
            ProcRequest::Spawn(n) => PRequest::Spawn(
                match n {
                    Some(s) => Some(s@),
                    None => None,
                },
            ),
            ProcRequest::SendChecked { to, msg } => PRequest::SendChecked { to: *to, msg: msg@ },
            ProcRequest::Register(n) => PRequest::Register(n@),
            ProcRequest::Unregister(n) => PRequest::Unregister(n@),
            ProcRequest::Whereis(n) => PRequest::Whereis(n@),
            ProcRequest::SendNamed(n, v) => PRequest::SendNamed(n@, v@),
            ProcRequest::RestartWindow => PRequest::RestartWindow,
            ProcRequest::Import(p) => PRequest::Import(p@),
        }
    }
}

/// How a checked send went.
#[derive(Clone, Copy, PartialEq, Eq, Structural, Debug)]
pub enum Delivery {
    Delivered,
    Failed,
    /// The process has no way to send.
    NoSender,
}

/// The models of outgoing messages.
pub open spec fn outbox_model(s: Seq<(ProcId, Message)>) -> Seq<(u64, MessageModel)> {
    Seq::new(s.len(), |i: int| (s[i].0, s[i].1@))
}

/// The models of a monitor table.
pub open spec fn refs_model(s: Seq<(String, ProcId)>) -> Seq<(Seq<char>, u64)> {
    Seq::new(s.len(), |i: int| (s[i].0@, s[i].1))
}

/// The models of a watcher table.
pub open spec fn watchers_model(s: Seq<(ProcId, String)>) -> Seq<(u64, Seq<char>)> {
    Seq::new(s.len(), |i: int| (s[i].0, s[i].1@))
}

/// The names of the supervised children.
pub open spec fn child_names(s: Seq<(String, ChildState)>) -> Seq<Seq<char>> {
    Seq::new(s.len(), |i: int| s[i].0@)
}

/// `r` is what the step result `e` says.
pub open spec fn result_ok(r: Result<ProcRequest, VMError>, e: Result<PRequest, VMErrorModel>) -> bool {
    match e {
        Ok(q) => r is Ok && r->Ok_0@ == q,
        Err(x) => r is Err && r->Err_0@ == x,
    }
}

/// The parts of a process that its instructions leave alone.
pub open spec fn same_rest(a: TinyProc, b: TinyProc) -> bool {
    &&& same_frame(a, b)
    &&& b.reduction_count == a.reduction_count
    &&& b.instruction_count == a.instruction_count
}

/// The parts of a process that a step leaves alone, counters aside.
pub open spec fn same_frame(a: TinyProc, b: TinyProc) -> bool {
    &&& b.instructions == a.instructions
    &&& b.max_reductions == a.max_reductions
    &&& b.supervisor_spec == a.supervisor_spec
    &&& b.supervised_children == a.supervised_children
    &&& b.call_stack == a.call_stack
    &&& b.variables == a.variables
    &&& b.try_stack == a.try_stack
    &&& b.exports == a.exports
    &&& b.loaded_modules == a.loaded_modules
    &&& b.loading_stack == a.loading_stack
    &&& b.lambda_captures == a.lambda_captures
    &&& b.max_stack_size == a.max_stack_size
    &&& b.debug_mode == a.debug_mode
    &&& b.breakpoints == a.breakpoints
    &&& b.gc_engine == a.gc_engine
    &&& b.gc_stats_enabled == a.gc_stats_enabled
    &&& b.trace_enabled == a.trace_enabled
}

proof fn lemma_key_first<K, V>(s: Seq<(K, V)>, k: K, i: int)
    requires
        0 <= i < s.len(),
        s[i].0 == k,
        forall|j: int| 0 <= j < i ==> s[j].0 != k,
    ensures
        key_at(s, k) == Some(i),
    decreases i,
{
    if i > 0 {
        assert forall|j: int| 0 <= j < i - 1 implies s.drop_first()[j].0 != k by {
            assert(s.drop_first()[j] == s[j + 1]);
        }
        lemma_key_first(s.drop_first(), k, i - 1);
    }
}

proof fn lemma_key_none<K, V>(s: Seq<(K, V)>, k: K)
    requires
        forall|j: int| 0 <= j < s.len() ==> s[j].0 != k,
    ensures
        key_at(s, k) is None,
    decreases s.len(),
{
    if s.len() > 0 {
        assert forall|j: int| 0 <= j < s.drop_first().len() implies s.drop_first()[j].0 != k by {
            assert(s.drop_first()[j] == s[j + 1]);
        }
        lemma_key_none(s.drop_first(), k);
    }
}

proof fn lemma_elem_first(s: Seq<u64>, x: u64, i: int)
    requires
        0 <= i < s.len(),
        s[i] == x,
        forall|j: int| 0 <= j < i ==> s[j] != x,
    ensures
        elem_at(s, x) == Some(i),
    decreases i,
{
    if i > 0 {
        assert forall|j: int| 0 <= j < i - 1 implies s.drop_first()[j] != x by {
            assert(s.drop_first()[j] == s[j + 1]);
        }
        lemma_elem_first(s.drop_first(), x, i - 1);
    }
}

proof fn lemma_elem_none(s: Seq<u64>, x: u64)
    requires
        forall|j: int| 0 <= j < s.len() ==> s[j] != x,
    ensures
        elem_at(s, x) is None,
    decreases s.len(),
{
    if s.len() > 0 {
        assert forall|j: int| 0 <= j < s.drop_first().len() implies s.drop_first()[j] != x by {
            assert(s.drop_first()[j] == s[j + 1]);
        }
        lemma_elem_none(s.drop_first(), x);
    }
}

/// `prefix` followed by the decimal digits of `n`.
fn with_pid(prefix: &str, n: u64) -> (r: String)
    ensures
        r@ == prefix@ + nat_text(n as nat),
{
    let mut t = chars_of(prefix);
    let d = u64_text(n);
    append_chars(&mut t, d.as_slice());
    string_of(t.as_slice())
}

/// `prefix` followed by `s`.
fn with_str(prefix: &str, s: &str) -> (r: String)
    ensures
        r@ == prefix@ + s@,
{
    let mut t = chars_of(prefix);
    let u = chars_of(s);
    append_chars(&mut t, u.as_slice());
    string_of(t.as_slice())
}

fn monitor_ref_text(id: u64, target: u64) -> (r: String)
    ensures
        r@ == monitor_ref(id, target),
{
    let mut t = chars_of("mon_");
    let a = u64_text(id);
    append_chars(&mut t, a.as_slice());
    let u = chars_of("_");
    append_chars(&mut t, u.as_slice());
    let b = u64_text(target);
    append_chars(&mut t, b.as_slice());
    string_of(t.as_slice())
}

fn down_text(pid: u64, r: &str, why: &str) -> (s: String)
    ensures
        s@ == "down:"@ + nat_text(pid as nat) + ":"@ + r@ + ":"@ + why@,
{
    let mut t = chars_of("down:");
    let a = u64_text(pid);
    append_chars(&mut t, a.as_slice());
    let c = chars_of(":");
    append_chars(&mut t, c.as_slice());
    let b = chars_of(r);
    append_chars(&mut t, b.as_slice());
    append_chars(&mut t, c.as_slice());
    let w = chars_of(why);
    append_chars(&mut t, w.as_slice());
    string_of(t.as_slice())
}

fn child_exit_text(id: u64, reason: &str) -> (s: String)
    ensures
        s@ == "child_exit_"@ + nat_text(id as nat) + "_"@ + reason@,
{
    let mut t = chars_of("child_exit_");
    let a = u64_text(id);
    append_chars(&mut t, a.as_slice());
    let u = chars_of("_");
    append_chars(&mut t, u.as_slice());
    let w = chars_of(reason);
    append_chars(&mut t, w.as_slice());
    string_of(t.as_slice())
}

impl TinyProc {
    /// The state that instructions read and write.
    pub open spec fn model(&self) -> PModel {
        PModel {
            id: self.id,
            state: self.state,
            stack: values_model(self.stack@),
            ip: self.ip as int,
            mailbox: messages_model(self.mailbox@),
            waiting: self.waiting_for_message,
            monitors: refs_model(self.monitors@),
            monitored_by: watchers_model(self.monitored_by@),
            links: self.linked_processes@,
            exit_reason: match self.exit_reason {
                Some(s) => Some(s@),
                None => None,
            },
            trap_exit: self.trap_exit,
            supervisor_pid: self.supervisor_pid,
            intensity: match self.supervisor_spec {
                Some(s) => Some(s.intensity),
                None => None,
            },
            children: child_names(self.supervised_children@),
            restarts: self.restart_intensity_count,
        }
    }
}

impl TinyProc {
    /// A ready process with an empty mailbox running `instructions`, with
    /// the default limit of 1000 reductions per slice.
    pub fn new(id: ProcId, instructions: Vec<OpCode>) -> (p: TinyProc)
        ensures
            p.model() == (PModel {
                id,
                state: ProcState::Ready,
                stack: Seq::empty(),
                ip: 0,
                mailbox: Seq::empty(),
                waiting: false,
                monitors: Seq::empty(),
                monitored_by: Seq::empty(),
                links: Seq::empty(),
                exit_reason: None,
                trap_exit: false,
                supervisor_pid: None,
                intensity: None,
                children: Seq::empty(),
                restarts: 0,
            }),
            p.instructions@ == instructions@,
            p.reduction_count == 0,
            p.max_reductions == 1000,
            p.instruction_count == 0,
    {
        let mut variables: Vec<Vec<(String, Value)>> = Vec::new();
        variables.push(Vec::new());
        let p = TinyProc {
            id,
            state: ProcState::Ready,
            mailbox: Vec::new(),
            reduction_count: 0,
            max_reductions: 1000,
            waiting_for_message: false,
            monitors: Vec::new(),
            monitored_by: Vec::new(),
            linked_processes: Vec::new(),
            exit_reason: None,
            trap_exit: false,
            supervisor_spec: None,
            supervised_children: Vec::new(),
            supervisor_pid: None,
            restart_intensity_count: 0,
            stack: Vec::new(),
            instructions,
            ip: 0,
            call_stack: Vec::new(),
            variables,
            try_stack: Vec::new(),
            exports: Vec::new(),
            loaded_modules: Vec::new(),
            loading_stack: Vec::new(),
            lambda_captures: Vec::new(),
            max_stack_size: 0,
            instruction_count: 0,
            debug_mode: false,
            breakpoints: Vec::new(),
            gc_engine: GcEngine::MarkSweep(MarkSweepGc::new(false)),
            gc_stats_enabled: false,
            trace_enabled: false,
        };
        assert(p.model().stack =~= Seq::<ValueModel>::empty());
        assert(p.model().mailbox =~= Seq::<MessageModel>::empty());
        assert(p.model().monitors =~= Seq::<(Seq<char>, u64)>::empty());
        assert(p.model().monitored_by =~= Seq::<(u64, Seq<char>)>::empty());
        assert(p.model().children =~= Seq::<Seq<char>>::empty());
        p
    }

    /// A supervisor for `spec`: it traps exits and runs a loop of `RECEIVE`
    /// and `YIELD`; its children are started by the scheduler.
    pub fn new_supervisor(id: ProcId, spec: SupervisorSpec) -> (p: TinyProc)
        ensures
            p.model() == (PModel {
                id,
                state: ProcState::Ready,
                stack: Seq::empty(),
                ip: 0,
                mailbox: Seq::empty(),
                waiting: false,
                monitors: Seq::empty(),
                monitored_by: Seq::empty(),
                links: Seq::empty(),
                exit_reason: None,
                trap_exit: true,
                supervisor_pid: None,
                intensity: Some(spec.intensity),
                children: Seq::empty(),
                restarts: 0,
            }),
            program_model(p.instructions@) == seq![OpCodeModel::Receive, OpCodeModel::Yield],
            p.supervisor_spec == Some(spec),
            p.reduction_count == 0,
            p.max_reductions == 1000,
            p.instruction_count == 0,
    {
        let mut program: Vec<OpCode> = Vec::new();
        program.push(OpCode::Receive);
        program.push(OpCode::Yield);
        let mut p = TinyProc::new(id, program);
        p.trap_exit = true;
        p.supervisor_spec = Some(spec);
        assert(program_model(p.instructions@) =~= seq![OpCodeModel::Receive, OpCodeModel::Yield]);
        p
    }

    /// Puts a message at the end of the mailbox.
    pub fn send_message(&mut self, message: Message)
        ensures
            final(self).model() == (PModel { mailbox: old(self).model().mailbox.push(message@), ..old(self).model() }),
            same_rest(*old(self), *final(self)),
    {
        self.mailbox.push(message);
        assert(self.model().mailbox =~= old(self).model().mailbox.push(message@));
    }

    /// Takes the first message of the mailbox, if there is one.
    pub fn receive_message(&mut self) -> (r: Option<Message>)
        ensures
            old(self).model().mailbox.len() == 0 ==> r is None && final(self).model() == old(self).model(),
            old(self).model().mailbox.len() > 0 ==> r is Some && r->Some_0@ == old(self).model().mailbox[0]
                && final(self).model() == (PModel {
                mailbox: old(self).model().mailbox.drop_first(),
                ..old(self).model()
            }),
            same_rest(*old(self), *final(self)),
    {
        if self.mailbox.len() == 0 {
            None
        } else {
            let m = self.mailbox.remove(0);
            assert(self.model().mailbox =~= old(self).model().mailbox.drop_first());
            Some(m)
        }
    }

    /// Whether the mailbox holds a message.
    pub fn has_messages(&self) -> (b: bool)
        ensures
            b == (self.model().mailbox.len() > 0),
    {
        self.mailbox.len() > 0
    }

    fn find_monitor(&self, r: &str) -> (o: Option<usize>)
        ensures
            match o {
                Some(i) => i < self.monitors@.len() && key_at(self.model().monitors, r@) == Some(i as int),
                None => key_at(self.model().monitors, r@) is None,
            },
    {
        let ghost s = self.model().monitors;
        let mut i: usize = 0;
        while i < self.monitors.len()
            invariant
                i <= self.monitors@.len(),
                s == refs_model(self.monitors@),
                forall|j: int| 0 <= j < i ==> s[j].0 != r@,
            decreases self.monitors.len() - i,
        {
            if str_eq(self.monitors[i].0.as_str(), r) {
                proof {
                    lemma_key_first(s, r@, i as int);
                }
                return Some(i);
            }
            i = i + 1;
        }
        proof {
            lemma_key_none(s, r@);
        }
        None
    }

    fn find_watcher(&self, pid: ProcId) -> (o: Option<usize>)
        ensures
            match o {
                Some(i) => i < self.monitored_by@.len() && key_at(self.model().monitored_by, pid) == Some(i as int),
                None => key_at(self.model().monitored_by, pid) is None,
            },
    {
        let ghost s = self.model().monitored_by;
        let mut i: usize = 0;
        while i < self.monitored_by.len()
            invariant
                i <= self.monitored_by@.len(),
                s == watchers_model(self.monitored_by@),
                forall|j: int| 0 <= j < i ==> s[j].0 != pid,
            decreases self.monitored_by.len() - i,
        {
            if self.monitored_by[i].0 == pid {
                proof {
                    lemma_key_first(s, pid, i as int);
                }
                return Some(i);
            }
            i = i + 1;
        }
        proof {
            lemma_key_none(s, pid);
        }
        None
    }

    fn find_link(&self, pid: ProcId) -> (o: Option<usize>)
        ensures
            match o {
                Some(i) => i < self.linked_processes@.len() && elem_at(self.model().links, pid) == Some(i as int),
                None => elem_at(self.model().links, pid) is None,
            },
    {
        let ghost s = self.model().links;
        let mut i: usize = 0;
        while i < self.linked_processes.len()
            invariant
                i <= self.linked_processes@.len(),
                s == self.linked_processes@,
                forall|j: int| 0 <= j < i ==> s[j] != pid,
            decreases self.linked_processes.len() - i,
        {
            if self.linked_processes[i] == pid {
                proof {
                    lemma_elem_first(s, pid, i as int);
                }
                return Some(i);
            }
            i = i + 1;
        }
        proof {
            lemma_elem_none(s, pid);
        }
        None
    }

    fn put_monitor(&mut self, r: String, target: ProcId)
        ensures
            final(self).model() == (PModel {
                monitors: table_put(old(self).model().monitors, r@, target),
                ..old(self).model()
            }),
            same_rest(*old(self), *final(self)),
    {
        let ghost rv = r@;
        match self.find_monitor(r.as_str()) {
            Some(i) => {
                self.monitors.set(i, (r, target));
                assert(self.model().monitors =~= old(self).model().monitors.update(i as int, (rv, target)));
            },
            None => {
                self.monitors.push((r, target));
                assert(self.model().monitors =~= old(self).model().monitors.push((rv, target)));
            },
        }
    }

    fn put_watcher(&mut self, pid: ProcId, r: String)
        ensures
            final(self).model() == (PModel {
                monitored_by: table_put(old(self).model().monitored_by, pid, r@),
                ..old(self).model()
            }),
            same_rest(*old(self), *final(self)),
    {
        let ghost rv = r@;
        match self.find_watcher(pid) {
            Some(i) => {
                self.monitored_by.set(i, (pid, r));
                assert(self.model().monitored_by =~= old(self).model().monitored_by.update(i as int, (pid, rv)));
            },
            None => {
                self.monitored_by.push((pid, r));
                assert(self.model().monitored_by =~= old(self).model().monitored_by.push((pid, rv)));
            },
        }
    }

    /// Starts monitoring `target`: records the monitor under the reference
    /// `mon_<id>_<target>` and gives the reference.
    pub fn monitor_process(&mut self, target_pid: ProcId) -> (r: String)
        ensures
            r@ == monitor_ref(old(self).id, target_pid),
            final(self).model() == (PModel {
                monitors: table_put(old(self).model().monitors, r@, target_pid),
                ..old(self).model()
            }),
            same_rest(*old(self), *final(self)),
    {
        let r = monitor_ref_text(self.id, target_pid);
        self.put_monitor(r.clone(), target_pid);
        r
    }

    /// Stops the monitor with the reference: gives the monitored process.
    pub fn demonitor_process(&mut self, monitor_ref: &str) -> (r: Option<ProcId>)
        ensures
            r == table_get(old(self).model().monitors, monitor_ref@),
            final(self).model() == (PModel {
                monitors: table_del(old(self).model().monitors, monitor_ref@),
                ..old(self).model()
            }),
            same_rest(*old(self), *final(self)),
    {
        match self.find_monitor(monitor_ref) {
            Some(i) => {
                let (_, pid) = self.monitors.remove(i);
                assert(self.model().monitors =~= old(self).model().monitors.remove(i as int));
                Some(pid)
            },
            None => None,
        }
    }

    /// Links to `pid`; gives whether the link was there already.
    pub fn link_process(&mut self, target_pid: ProcId) -> (was: bool)
        ensures
            was == (elem_at(old(self).model().links, target_pid) is Some),
            final(self).model() == (PModel { links: set_add(old(self).model().links, target_pid), ..old(self).model() }),
            same_rest(*old(self), *final(self)),
    {
        match self.find_link(target_pid) {
            Some(_) => true,
            None => {
                self.linked_processes.push(target_pid);
                false
            },
        }
    }

    /// Removes the link to `pid`.
    pub fn unlink_process(&mut self, target_pid: ProcId)
        ensures
            final(self).model() == (PModel { links: set_del(old(self).model().links, target_pid), ..old(self).model() }),
            same_rest(*old(self), *final(self)),
    {
        match self.find_link(target_pid) {
            Some(i) => {
                self.linked_processes.remove(i);
            },
            None => {},
        }
    }

    /// Records that `monitoring_pid` watches this process under the
    /// reference.
    pub fn add_monitor(&mut self, monitoring_pid: ProcId, monitor_ref: String)
        ensures
            final(self).model() == (PModel {
                monitored_by: table_put(old(self).model().monitored_by, monitoring_pid, monitor_ref@),
                ..old(self).model()
            }),
            same_rest(*old(self), *final(self)),
    {
        self.put_watcher(monitoring_pid, monitor_ref);
    }

    /// Forgets that `monitoring_pid` watches this process: gives its
    /// reference.
    pub fn remove_monitor(&mut self, monitoring_pid: ProcId) -> (r: Option<String>)
        ensures
            match r {
                Some(s) => table_get(old(self).model().monitored_by, monitoring_pid) == Some(s@),
                None => table_get(old(self).model().monitored_by, monitoring_pid) is None,
            },
            final(self).model() == (PModel {
                monitored_by: table_del(old(self).model().monitored_by, monitoring_pid),
                ..old(self).model()
            }),
            same_rest(*old(self), *final(self)),
    {
        match self.find_watcher(monitoring_pid) {
            Some(i) => {
                let (_, r) = self.monitored_by.remove(i);
                assert(self.model().monitored_by =~= old(self).model().monitored_by.remove(i as int));
                Some(r)
            },
            None => None,
        }
    }

    /// Records why the process exits.
    pub fn set_exit_reason(&mut self, reason: String)
        ensures
            final(self).model() == (PModel { exit_reason: Some(reason@), ..old(self).model() }),
            same_rest(*old(self), *final(self)),
    {
        self.exit_reason = Some(reason);
    }

    /// Ends the process for `reason`: gives the notices to send (see
    /// [`exit_notices`]).
    pub fn handle_process_exit(&mut self, reason: String) -> (out: Vec<(ProcId, Message)>)
        ensures
            final(self).model() == exited(old(self).model(), reason@),
            outbox_model(out@) == exit_notices(old(self).model(), reason@),
            same_rest(*old(self), *final(self)),
    {
        let ghost p = self.model();
        let mut out: Vec<(ProcId, Message)> = Vec::new();
        let mut i: usize = 0;
        while i < self.monitors.len()
            invariant
                i <= self.monitors@.len(),
                p == self.model(),
                outbox_model(out@) == Seq::new(
                    i as nat,
                    |k: int| (p.monitors[k].1, MessageModel::Down(p.id, p.monitors[k].0, reason@)),
                ),
            decreases self.monitors.len() - i,
        {
            let ghost before = outbox_model(out@);
            let m = Message::Down(self.id, self.monitors[i].0.clone(), reason.clone());
            assert(p.monitors[i as int] == (self.monitors@[i as int].0@, self.monitors@[i as int].1));
            assert(m@ == MessageModel::Down(p.id, p.monitors[i as int].0, reason@));
            out.push((self.monitors[i].1, m));
            assert(outbox_model(out@) =~= before.push((p.monitors[i as int].1, m@)));
            assert(outbox_model(out@) =~= Seq::new(
                (i + 1) as nat,
                |k: int| (p.monitors[k].1, MessageModel::Down(p.id, p.monitors[k].0, reason@)),
            ));
            i = i + 1;
        }
        let ghost a = outbox_model(out@);
        let mut j: usize = 0;
        while j < self.monitored_by.len()
            invariant
                j <= self.monitored_by@.len(),
                p == self.model(),
                a.len() == p.monitors.len(),
                outbox_model(out@) == a + Seq::new(
                    j as nat,
                    |k: int| (p.monitored_by[k].0, MessageModel::Down(p.id, p.monitored_by[k].1, reason@)),
                ),
            decreases self.monitored_by.len() - j,
        {
            let ghost before = outbox_model(out@);
            let m = Message::Down(self.id, self.monitored_by[j].1.clone(), reason.clone());
            assert(p.monitored_by[j as int] == (self.monitored_by@[j as int].0, self.monitored_by@[j as int].1@));
            assert(m@ == MessageModel::Down(p.id, p.monitored_by[j as int].1, reason@));
            out.push((self.monitored_by[j].0, m));
            assert(outbox_model(out@) =~= before.push((p.monitored_by[j as int].0, m@)));
            assert(outbox_model(out@) =~= a + Seq::new(
                (j + 1) as nat,
                |k: int| (p.monitored_by[k].0, MessageModel::Down(p.id, p.monitored_by[k].1, reason@)),
            ));
            j = j + 1;
        }
        let ghost b = outbox_model(out@);
        let mut k: usize = 0;
        while k < self.linked_processes.len()
            invariant
                k <= self.linked_processes@.len(),
                p == self.model(),
                outbox_model(out@) == b + Seq::new(k as nat, |x: int| (p.links[x], MessageModel::Exit(p.id))),
            decreases self.linked_processes.len() - k,
        {
            let ghost before = outbox_model(out@);
            out.push((self.linked_processes[k], Message::Exit(self.id)));
            assert(outbox_model(out@) =~= before.push((p.links[k as int], MessageModel::Exit(p.id))));
            assert(outbox_model(out@) =~= b + Seq::new((k + 1) as nat, |x: int| (p.links[x], MessageModel::Exit(p.id))));
            k = k + 1;
        }
        let ghost c = outbox_model(out@);
        match self.supervisor_pid {
            Some(sp) => {
                out.push((sp, Message::Signal(child_exit_text(self.id, reason.as_str()))));
            },
            None => {},
        }
        assert(outbox_model(out@) =~= exit_notices(p, reason@));
        self.exit_reason = Some(reason);
        self.state = ProcState::Exited;
        out
    }

    /// Whether the process may run another instruction in this slice.
    pub fn has_reductions_left(&self) -> (b: bool)
        ensures
            b == (self.reduction_count < self.max_reductions),
    {
        self.reduction_count < self.max_reductions
    }

    /// Counts an instruction against the slice.
    pub fn increment_reductions(&mut self)
        requires
            old(self).reduction_count < usize::MAX,
        ensures
            final(self).reduction_count == old(self).reduction_count + 1,
            final(self).model() == old(self).model(),
            same_frame(*old(self), *final(self)),
            final(self).instruction_count == old(self).instruction_count,
    {
        self.reduction_count = self.reduction_count + 1;
    }

    /// Starts a new slice count.
    pub fn reset_reductions(&mut self)
        ensures
            final(self).reduction_count == 0,
            final(self).model() == old(self).model(),
            same_frame(*old(self), *final(self)),
            final(self).instruction_count == old(self).instruction_count,
    {
        self.reduction_count = 0;
    }
}

/// The process went from `a` to `b` as the step `e` says, sending `out`
/// and answering `r`.
pub open spec fn step_ok(
    a: TinyProc,
    b: TinyProc,
    out: Seq<(ProcId, Message)>,
    r: Result<ProcRequest, VMError>,
    e: PStep,
) -> bool {
    &&& b.model() == e.0
    &&& outbox_model(out) == e.1
    &&& result_ok(r, e.2)
    &&& same_rest(a, b)
}

/// Whether the message `m` matches the pattern (see [`pattern_matches`]).
pub fn matches_pattern(message: &Message, pattern: &MessagePattern) -> (b: bool)
    ensures
        b == pattern_matches(message@, pattern_model(*pattern)),
{
    match pattern {
        MessagePattern::Any => true,
        MessagePattern::Value(pv) => match message {
            Message::Value(v) => values_equal(v, pv),
            _ => false,
        },
        MessagePattern::Signal(ps) => match message {
            Message::Signal(s) => str_eq(s.as_str(), ps.as_str()),
            _ => false,
        },
        MessagePattern::Exit(pp) => match message {
            Message::Exit(pid) => match pp {
                None => true,
                Some(q) => *q == *pid,
            },
            _ => false,
        },
        MessagePattern::Down(pp, _) => match message {
            Message::Down(pid, _, _) => match pp {
                None => true,
                Some(q) => *q == *pid,
            },
            _ => false,
        },
        MessagePattern::Link(pp) => match message {
            Message::Link(pid) => match pp {
                None => true,
                Some(q) => *q == *pid,
            },
            _ => false,
        },
        MessagePattern::Type(t) => match message {
            Message::Value(v) => match v {
                Value::Int(_) => str_eq(t.as_str(), "int"),
                Value::Float(_) => str_eq(t.as_str(), "float"),
                Value::Str(_) => str_eq(t.as_str(), "string"),
                Value::Bool(_) => str_eq(t.as_str(), "bool"),
                Value::List(_) => str_eq(t.as_str(), "list"),
                Value::Object(_) => str_eq(t.as_str(), "object"),
                _ => false,
            },
            _ => false,
        },
        MessagePattern::Guard(_) => false,
    }
}

/// Whether the message matches one of the patterns.
pub fn matches_any_pattern(message: &Message, patterns: &[MessagePattern]) -> (b: bool)
    ensures
        b == matches_any(message@, patterns_model(patterns@)),
{
    let ghost ps = patterns_model(patterns@);
    let mut j: usize = 0;
    while j < patterns.len()
        invariant
            j <= patterns@.len(),
            ps == patterns_model(patterns@),
            forall|k: int| 0 <= k < j ==> !pattern_matches(message@, #[trigger] ps[k]),
        decreases patterns.len() - j,
    {
        if matches_pattern(message, &patterns[j]) {
            assert(pattern_matches(message@, ps[j as int]));
            return true;
        }
        j = j + 1;
    }
    false
}

proof fn lemma_first_match_at(s: Seq<MessageModel>, pats: Seq<PatternModel>, i: int)
    requires
        0 <= i < s.len(),
        matches_any(s[i], pats),
        forall|j: int| 0 <= j < i ==> !matches_any(#[trigger] s[j], pats),
    ensures
        first_match(s, pats) == Some(i),
    decreases i,
{
    if i > 0 {
        assert(!matches_any(s[0], pats));
        assert forall|j: int| 0 <= j < i - 1 implies !matches_any(#[trigger] s.drop_first()[j], pats) by {
            assert(s.drop_first()[j] == s[j + 1]);
        }
        lemma_first_match_at(s.drop_first(), pats, i - 1);
    }
}

proof fn lemma_first_match_none(s: Seq<MessageModel>, pats: Seq<PatternModel>)
    requires
        forall|j: int| 0 <= j < s.len() ==> !matches_any(#[trigger] s[j], pats),
    ensures
        first_match(s, pats) is None,
    decreases s.len(),
{
    if s.len() > 0 {
        assert(!matches_any(s[0], pats));
        assert forall|j: int| 0 <= j < s.drop_first().len() implies !matches_any(#[trigger] s.drop_first()[j], pats) by {
            assert(s.drop_first()[j] == s[j + 1]);
        }
        lemma_first_match_none(s.drop_first(), pats);
    }
}

impl TinyProc {
    fn find_match(&self, patterns: &[MessagePattern]) -> (o: Option<usize>)
        ensures
            match o {
                Some(i) => i < self.mailbox@.len() && first_match(self.model().mailbox, patterns_model(patterns@)) == Some(
                    i as int,
                ),
                None => first_match(self.model().mailbox, patterns_model(patterns@)) is None,
            },
    {
        let ghost s = self.model().mailbox;
        let ghost ps = patterns_model(patterns@);
        let mut i: usize = 0;
        while i < self.mailbox.len()
            invariant
                i <= self.mailbox@.len(),
                s == messages_model(self.mailbox@),
                ps == patterns_model(patterns@),
                forall|j: int| 0 <= j < i ==> !matches_any(#[trigger] s[j], ps),
            decreases self.mailbox.len() - i,
        {
            if matches_any_pattern(&self.mailbox[i], patterns) {
                proof {
                    lemma_first_match_at(s, ps, i as int);
                }
                return Some(i);
            }
            assert(!matches_any(s[i as int], ps));
            i = i + 1;
        }
        proof {
            lemma_first_match_none(s, ps);
        }
        None
    }

    /// Takes the first message that matches one of the patterns; the
    /// others stay in the mailbox in their order.
    pub fn selective_receive(&mut self, patterns: &[MessagePattern]) -> (r: Result<Option<Message>, String>)
        ensures
            r is Ok,
            match first_match(old(self).model().mailbox, patterns_model(patterns@)) {
                Some(i) => r->Ok_0 is Some && r->Ok_0->Some_0@ == old(self).model().mailbox[i] && final(self).model()
                    == (PModel { mailbox: old(self).model().mailbox.remove(i), ..old(self).model() }),
                None => r->Ok_0 is None && final(self).model() == old(self).model(),
            },
            same_rest(*old(self), *final(self)),
    {
        match self.find_match(patterns) {
            Some(i) => {
                let m = self.mailbox.remove(i);
                assert(self.model().mailbox =~= old(self).model().mailbox.remove(i as int));
                Ok(Some(m))
            },
            None => Ok(None),
        }
    }

    fn pop_value(&mut self, operation: &str) -> (r: Result<Value, VMError>)
        ensures
            match r {
                Ok(v) => old(self).model().stack.len() > 0 && v@ == old(self).model().stack.last() && final(self).model()
                    == (PModel { stack: old(self).model().stack.drop_last(), ..old(self).model() }),
                Err(e) => old(self).model().stack.len() == 0 && e@ == VMErrorModel::StackUnderflow(operation@)
                    && final(self).model() == old(self).model(),
            },
            same_rest(*old(self), *final(self)),
    {
        match self.stack.pop() {
            Some(v) => {
                assert(self.model().stack =~= old(self).model().stack.drop_last());
                Ok(v)
            },
            None => Err(underflow(operation)),
        }
    }

    /// Pushes `v` and moves to the next instruction.
    fn push_next(&mut self, v: Value) -> (r: (Vec<(ProcId, Message)>, Result<ProcRequest, VMError>))
        requires
            old(self).ip < usize::MAX,
        ensures
            step_ok(*old(self), *final(self), r.0@, r.1, pushed(old(self).model(), v@)),
    {
        let ghost vm = v@;
        self.stack.push(v);
        assert(self.model().stack =~= old(self).model().stack.push(vm));
        self.ip = self.ip + 1;
        let out: Vec<(ProcId, Message)> = Vec::new();
        assert(outbox_model(out@) =~= Seq::<(u64, MessageModel)>::empty());
        (out, Ok(ProcRequest::Continue))
    }

    fn has_child(&self, c: &str) -> (b: bool)
        ensures
            b == self.model().children.contains(c@),
    {
        let ghost names = self.model().children;
        let mut i: usize = 0;
        while i < self.supervised_children.len()
            invariant
                i <= self.supervised_children@.len(),
                names == child_names(self.supervised_children@),
                forall|j: int| 0 <= j < i ==> names[j] != c@,
            decreases self.supervised_children.len() - i,
        {
            if str_eq(self.supervised_children[i].0.as_str(), c) {
                assert(names[i as int] == c@);
                return true;
            }
            i = i + 1;
        }
        false
    }

    #[verifier::rlimit(40)]
    fn exec_arith(&mut self, op: IntOp, name: &str) -> (r: (Vec<(ProcId, Message)>, Result<ProcRequest, VMError>))
        requires
            old(self).ip < usize::MAX,
        ensures
            step_ok(*old(self), *final(self), r.0@, r.1, parith(old(self).model(), op, name@)),
    {
        let out: Vec<(ProcId, Message)> = Vec::new();
        assert(outbox_model(out@) =~= Seq::<(u64, MessageModel)>::empty());
        let b = match self.pop_value(name) {
            Ok(v) => v,
            Err(e) => {
                return (out, Err(e));
            },
        };
        let a = match self.pop_value(name) {
            Ok(v) => v,
            Err(e) => {
                return (out, Err(e));
            },
        };
        match (&a, &b) {
            (Value::Int(x), Value::Int(y)) => match op {
                IntOp::Add => self.push_next(Value::Int(x.wrapping_add(*y))),
                IntOp::Sub => self.push_next(Value::Int(x.wrapping_sub(*y))),
                IntOp::Mul => self.push_next(Value::Int(x.wrapping_mul(*y))),
                IntOp::Div => match x.checked_div(*y) {
                    Some(q) => self.push_next(Value::Int(q)),
                    None => if *y == 0 {
                        (out, Err(VMError::DivisionByZero))
                    } else {
                        (out, Ok(ProcRequest::DivideOverflow))
                    },
                },
            },
            (Value::Int(x), Value::Float(y)) => if op == IntOp::Div && float_is_zero(*y) {
                (out, Err(VMError::DivisionByZero))
            } else {
                (out, Ok(ProcRequest::Arith { op: float_op_of(op), a: Num::Int(*x), b: Num::Float(*y) }))
            },
            (Value::Float(x), Value::Int(y)) => if op == IntOp::Div && *y == 0 {
                (out, Err(VMError::DivisionByZero))
            } else {
                (out, Ok(ProcRequest::Arith { op: float_op_of(op), a: Num::Float(*x), b: Num::Int(*y) }))
            },
            (Value::Float(x), Value::Float(y)) => if op == IntOp::Div && float_is_zero(*y) {
                (out, Err(VMError::DivisionByZero))
            } else {
                (out, Ok(ProcRequest::Arith { op: float_op_of(op), a: Num::Float(*x), b: Num::Float(*y) }))
            },
            _ => (out, Err(mismatch_two("two numbers (int or float)", name, &a, &b))),
        }
    }
}

fn float_op_of(op: IntOp) -> (f: FloatOp)
    ensures
        f == crate::vm::machine::float_of(op),
{
    match op {
        IntOp::Add => FloatOp::Add,
        IntOp::Sub => FloatOp::Sub,
        IntOp::Mul => FloatOp::Mul,
        IntOp::Div => FloatOp::Div,
    }
}

impl View for Delivery {
    type V = DeliveryModel;

    open spec fn view(&self) -> DeliveryModel {
        match self {
            Delivery::Delivered => DeliveryModel::Delivered,
            Delivery::Failed => DeliveryModel::Failed,
            Delivery::NoSender => DeliveryModel::NoSender,
        }
    }
}

fn append_out(out: &mut Vec<(ProcId, Message)>, more: Vec<(ProcId, Message)>)
    ensures
        outbox_model(final(out)@) == outbox_model(old(out)@) + outbox_model(more@),
{
    let ghost a = outbox_model(out@);
    let ghost b = outbox_model(more@);
    let mut i: usize = 0;
    while i < more.len()
        invariant
            i <= more@.len(),
            b == outbox_model(more@),
            outbox_model(out@) == a + b.take(i as int),
        decreases more.len() - i,
    {
        let ghost before = outbox_model(out@);
        let m = more[i].1.copy();
        out.push((more[i].0, m));
        assert(outbox_model(out@) =~= before.push(b[i as int]));
        assert(b.take(i + 1) =~= b.take(i as int).push(b[i as int]));
        i = i + 1;
    }
    assert(b.take(more@.len() as int) =~= b);
}

impl TinyProc {
    /// Takes in a received message (see [`take_message`]).
    #[verifier::rlimit(40)]
    fn take(&mut self, m: Message, selective: bool) -> (r: (Vec<(ProcId, Message)>, Result<ProcRequest, VMError>))
        requires
            old(self).ip < usize::MAX,
        ensures
            step_ok(*old(self), *final(self), r.0@, r.1, take_message(old(self).model(), m@, selective)),
    {
        match m {
            Message::Value(v) => self.push_next(v),
            Message::Signal(s) => self.push_next(Value::Str(s)),
            Message::Exit(pid) => {
                if selective && self.trap_exit {
                    self.push_next(Value::Str(with_pid("exit:", pid)))
                } else if self.find_link(pid).is_some() {
                    let out = self.handle_process_exit(with_pid("exit_from_", pid));
                    (out, Ok(ProcRequest::Continue))
                } else {
                    self.push_next(Value::Int(pid as i64))
                }
            },
            Message::Monitor(pid, r) => {
                let t = with_str("monitor:", r.as_str());
                self.add_monitor(pid, r);
                self.push_next(Value::Str(t))
            },
            Message::Down(pid, r, why) => self.push_next(Value::Str(down_text(pid, r.as_str(), why.as_str()))),
            Message::Link(pid) => {
                let was = self.link_process(pid);
                let (mut out, res) = self.push_next(Value::Str(with_pid("linked:", pid)));
                if !was {
                    out.push((pid, Message::Link(self.id)));
                    assert(outbox_model(out@) =~= seq![(pid, MessageModel::Link(self.id))]);
                }
                (out, res)
            },
            Message::Unlink(pid) => {
                self.unlink_process(pid);
                self.push_next(Value::Str(with_pid("unlinked:", pid)))
            },
            Message::TrapExit(t) => {
                self.trap_exit = t;
                self.push_next(Value::Bool(t))
            },
        }
    }

    /// Handles the system messages at the head of a step (see [`drain`]).
    #[verifier::rlimit(60)]
    fn drain_mailbox(&mut self) -> (r: (Vec<(ProcId, Message)>, bool))
        ensures
            ({
                let d = drain(old(self).model(), Seq::empty(), Seq::empty(), old(self).model().mailbox);
                final(self).model() == d.0 && outbox_model(r.0@) == d.1 && r.1 == d.2
            }),
            same_rest(*old(self), *final(self)),
    {
        let ghost p0 = self.model();
        let ghost msgs = p0.mailbox;
        let n = self.mailbox.len();
        let mut kept: Vec<Message> = Vec::new();
        let mut out: Vec<(ProcId, Message)> = Vec::new();
        let mut i: usize = 0;
        assert(msgs.skip(0) =~= msgs);
        assert(messages_model(kept@) =~= Seq::<MessageModel>::empty());
        assert(outbox_model(out@) =~= Seq::<(u64, MessageModel)>::empty());
        while i < n
            invariant
                n == self.mailbox@.len(),
                i <= n,
                p0 == old(self).model(),
                msgs == p0.mailbox,
                msgs == messages_model(self.mailbox@),
                self.model().mailbox == msgs,
                drain(p0, Seq::empty(), Seq::empty(), msgs) == drain(
                    self.model(),
                    messages_model(kept@),
                    outbox_model(out@),
                    msgs.skip(i as int),
                ),
                same_rest(*old(self), *self),
            decreases n - i,
        {
            let ghost k = messages_model(kept@);
            let ghost o = outbox_model(out@);
            let ghost p = self.model();
            assert(msgs.skip(i as int)[0] == msgs[i as int]);
            assert(msgs.skip(i as int).drop_first() =~= msgs.skip(i + 1));
            let m = self.mailbox[i].copy();
            match m {
                Message::Exit(pid) => {
                    if self.find_link(pid).is_some() {
                        if self.trap_exit {
                            kept.push(Message::Exit(pid));
                            assert(messages_model(kept@) =~= k.push(MessageModel::Exit(pid)));
                        } else {
                            let notes = self.handle_process_exit(with_pid("exit_from_", pid));
                            append_out(&mut out, notes);
                            let mut rest: Vec<Message> = Vec::new();
                            let mut j: usize = i + 1;
                            assert(messages_model(rest@) =~= msgs.subrange(i + 1, i + 1));
                            while j < n
                                invariant
                                    i + 1 <= j <= n,
                                    n == self.mailbox@.len(),
                                    msgs == messages_model(self.mailbox@),
                                    messages_model(rest@) == msgs.subrange(i + 1, j as int),
                                decreases n - j,
                            {
                                let ghost before = messages_model(rest@);
                                rest.push(self.mailbox[j].copy());
                                assert(messages_model(rest@) =~= before.push(msgs[j as int]));
                                assert(messages_model(rest@) =~= msgs.subrange(i + 1, j + 1));
                                j = j + 1;
                            }
                            let ghost r0 = messages_model(rest@);
                            let mut q: usize = 0;
                            while q < kept.len()
                                invariant
                                    q <= kept@.len(),
                                    k == messages_model(kept@),
                                    messages_model(rest@) == r0 + k.take(q as int),
                                decreases kept.len() - q,
                            {
                                let ghost before = messages_model(rest@);
                                rest.push(kept[q].copy());
                                assert(messages_model(rest@) =~= before.push(k[q as int]));
                                assert(k.take(q + 1) =~= k.take(q as int).push(k[q as int]));
                                q = q + 1;
                            }
                            assert(k.take(kept@.len() as int) =~= k);
                            assert(r0 =~= msgs.skip(i + 1));
                            self.mailbox = rest;
                            assert(messages_model(self.mailbox@) =~= msgs.skip(i + 1) + k);
                            assert(self.model() == (PModel {
                                mailbox: msgs.skip(i + 1) + k,
                                ..exited(p, exit_from(pid))
                            }));
                            assert(drain(p, k, o, msgs.skip(i as int)) == (
                                PModel { mailbox: msgs.skip(i + 1) + k, ..exited(p, exit_from(pid)) },
                                o + exit_notices(p, exit_from(pid)),
                                true,
                            ));
                            assert(outbox_model(out@) == o + exit_notices(p, exit_from(pid)));
                            return (out, true);
                        }
                    }
                },
                Message::TrapExit(t) => {
                    self.trap_exit = t;
                },
                Message::Link(pid) => {
                    let was = self.link_process(pid);
                    if !was {
                        out.push((pid, Message::Link(self.id)));
                        assert(outbox_model(out@) =~= o.push((pid, MessageModel::Link(self.id))));
                    }
                },
                Message::Unlink(pid) => {
                    self.unlink_process(pid);
                },
                Message::Monitor(pid, r) => {
                    self.add_monitor(pid, r);
                },
                other => {
                    let ghost om = other@;
                    kept.push(other);
                    assert(messages_model(kept@) =~= k.push(om));
                },
            }
            i = i + 1;
        }
        assert(msgs.skip(n as int) =~= Seq::<MessageModel>::empty());
        let ghost k = messages_model(kept@);
        self.mailbox = kept;
        (out, false)
    }
}

impl TinyProc {
    fn exec_receive(&mut self) -> (r: (Vec<(ProcId, Message)>, Result<ProcRequest, VMError>))
        requires
            old(self).ip < usize::MAX,
        ensures
            step_ok(*old(self), *final(self), r.0@, r.1, pexec(old(self).model(), OpCodeModel::Receive)),
    {
        if self.mailbox.len() == 0 {
            self.waiting_for_message = true;
            self.state = ProcState::Waiting;
            let out: Vec<(ProcId, Message)> = Vec::new();
            assert(outbox_model(out@) =~= Seq::<(u64, MessageModel)>::empty());
            (out, Ok(ProcRequest::Continue))
        } else {
            let m = self.mailbox.remove(0);
            self.waiting_for_message = false;
            assert(self.model().mailbox =~= old(self).model().mailbox.drop_first());
            self.take(m, false)
        }
    }

    fn exec_receive_match(&mut self, patterns: &Vec<MessagePattern>) -> (r: (
        Vec<(ProcId, Message)>,
        Result<ProcRequest, VMError>,
    ))
        requires
            old(self).ip < usize::MAX,
        ensures
            step_ok(
                *old(self),
                *final(self),
                r.0@,
                r.1,
                pexec(old(self).model(), OpCodeModel::ReceiveMatch(patterns_model(patterns@))),
            ),
    {
        match self.find_match(patterns.as_slice()) {
            None => {
                self.waiting_for_message = true;
                self.state = ProcState::Waiting;
                let out: Vec<(ProcId, Message)> = Vec::new();
                assert(outbox_model(out@) =~= Seq::<(u64, MessageModel)>::empty());
                (out, Ok(ProcRequest::Continue))
            },
            Some(i) => {
                let m = self.mailbox.remove(i);
                self.waiting_for_message = false;
                assert(self.model().mailbox =~= old(self).model().mailbox.remove(i as int));
                self.take(m, true)
            },
        }
    }

    fn exec_messaging(&mut self, ins: &OpCode) -> (r: (Vec<(ProcId, Message)>, Result<ProcRequest, VMError>))
        requires
            old(self).ip < usize::MAX,
            ins is Monitor || ins is Demonitor || ins is Link || ins is Unlink || ins is Send || ins is TrapExit,
        ensures
            step_ok(*old(self), *final(self), r.0@, r.1, pexec(old(self).model(), opcode_model(*ins))),
    {
        let out: Vec<(ProcId, Message)> = Vec::new();
        assert(outbox_model(out@) =~= Seq::<(u64, MessageModel)>::empty());
        match ins {
            OpCode::Send(t) => match self.pop_value("SEND") {
                Ok(v) => {
                    self.ip = self.ip + 1;
                    let mut sent: Vec<(ProcId, Message)> = Vec::new();
                    let ghost vm = v@;
                    sent.push((*t, Message::Value(v)));
                    assert(outbox_model(sent@) =~= seq![(*t, MessageModel::Value(vm))]);
                    (sent, Ok(ProcRequest::Continue))
                },
                Err(e) => (out, Err(e)),
            },
            OpCode::Monitor(t) => {
                let r = self.monitor_process(*t);
                (out, Ok(ProcRequest::SendChecked { to: *t, msg: Message::Monitor(self.id, r) }))
            },
            OpCode::Demonitor(r) => match self.demonitor_process(r.as_str()) {
                Some(pid) => (
                    out,
                    Ok(ProcRequest::SendChecked { to: pid, msg: Message::Monitor(self.id, with_str("stop_", r.as_str())) }),
                ),
                None => self.push_next(Value::Str("monitor_not_found".to_owned())),
            },
            OpCode::Link(t) => {
                self.link_process(*t);
                (out, Ok(ProcRequest::SendChecked { to: *t, msg: Message::Link(self.id) }))
            },
            OpCode::Unlink(t) => {
                self.unlink_process(*t);
                (out, Ok(ProcRequest::SendChecked { to: *t, msg: Message::Unlink(self.id) }))
            },
            _ => match self.pop_value("TRAP_EXIT") {
                Ok(v) => match v {
                    Value::Bool(b) => {
                        self.trap_exit = b;
                        self.ip = self.ip + 1;
                        (out, Ok(ProcRequest::Continue))
                    },
                    _ => (out, Err(VMError::TypeError("TRAP_EXIT requires boolean value".to_owned()))),
                },
                Err(e) => (out, Err(e)),
            },
        }
    }

    fn exec_service(&mut self, ins: &OpCode) -> (r: (Vec<(ProcId, Message)>, Result<ProcRequest, VMError>))
        requires
            old(self).ip < usize::MAX,
            ins is Register || ins is Unregister || ins is Whereis || ins is SendNamed || ins is StartSupervisor
                || ins is SuperviseChild || ins is RestartChild || ins is Import || ins is Spawn,
        ensures
            step_ok(*old(self), *final(self), r.0@, r.1, pexec(old(self).model(), opcode_model(*ins))),
    {
        let out: Vec<(ProcId, Message)> = Vec::new();
        assert(outbox_model(out@) =~= Seq::<(u64, MessageModel)>::empty());
        match ins {
            OpCode::Register(n) => (out, Ok(ProcRequest::Register(n.clone()))),
            OpCode::Unregister(n) => (out, Ok(ProcRequest::Unregister(n.clone()))),
            OpCode::Whereis(n) => (out, Ok(ProcRequest::Whereis(n.clone()))),
            OpCode::SendNamed(n) => match self.pop_value("SEND_NAMED") {
                Ok(v) => (out, Ok(ProcRequest::SendNamed(n.clone(), v))),
                Err(e) => (out, Err(e)),
            },
            OpCode::StartSupervisor => self.push_next(Value::Str("supervisor_started".to_owned())),
            OpCode::SuperviseChild(c) => self.push_next(Value::Str(with_str("supervising_", c.as_str()))),
            OpCode::RestartChild(c) => {
                if self.supervisor_spec.is_none() {
                    self.push_next(Value::Str("not_supervisor".to_owned()))
                } else if !self.has_child(c.as_str()) {
                    self.push_next(Value::Str(with_str("child_not_found_", c.as_str())))
                } else {
                    (out, Ok(ProcRequest::RestartWindow))
                }
            },
            OpCode::Import(path) => (out, Ok(ProcRequest::Import(path.clone()))),
            _ => match self.pop_value("SPAWN") {
                Ok(v) => {
                    let name = match v {
                        Value::Str(s) => Some(s),
                        _ => None,
                    };
                    (out, Ok(ProcRequest::Spawn(name)))
                },
                Err(e) => (out, Err(e)),
            },
        }
    }

    /// Executes one instruction (see [`pexec`]).
    #[verifier::rlimit(80)]
    pub fn execute_instruction_safe(&mut self, ins: &OpCode) -> (r: (
        Vec<(ProcId, Message)>,
        Result<ProcRequest, VMError>,
    ))
        requires
            old(self).ip < usize::MAX,
        ensures
            step_ok(*old(self), *final(self), r.0@, r.1, pexec(old(self).model(), opcode_model(*ins))),
    {
        let out: Vec<(ProcId, Message)> = Vec::new();
        assert(outbox_model(out@) =~= Seq::<(u64, MessageModel)>::empty());
        match ins {
            OpCode::PushInt(n) => self.push_next(Value::Int(*n)),
            OpCode::PushFloat(f) => self.push_next(Value::Float(*f)),
            OpCode::PushStr(t) => self.push_next(Value::Str(t.clone())),
            OpCode::PushBool(b) => self.push_next(Value::Bool(*b)),
            OpCode::Print => match self.pop_value("PRINT") {
                Ok(v) => {
                    self.ip = self.ip + 1;
                    (out, Ok(ProcRequest::Print(v)))
                },
                Err(e) => (out, Err(e)),
            },
            OpCode::Add => self.exec_arith(IntOp::Add, "ADD"),
            OpCode::Sub => self.exec_arith(IntOp::Sub, "SUB"),
            OpCode::Mul => self.exec_arith(IntOp::Mul, "MUL"),
            OpCode::Div => self.exec_arith(IntOp::Div, "DIV"),
            OpCode::Halt => {
                let notes = self.handle_process_exit("normal".to_owned());
                (notes, Ok(ProcRequest::Continue))
            },
            OpCode::Receive => self.exec_receive(),
            OpCode::ReceiveMatch(patterns) => self.exec_receive_match(patterns),
            OpCode::Yield => {
                self.ip = self.ip + 1;
                self.state = ProcState::Waiting;
                (out, Ok(ProcRequest::Continue))
            },
            OpCode::Send(_) | OpCode::Monitor(_) | OpCode::Demonitor(_) | OpCode::Link(_) | OpCode::Unlink(_)
            | OpCode::TrapExit => self.exec_messaging(ins),
            OpCode::Register(_) | OpCode::Unregister(_) | OpCode::Whereis(_) | OpCode::SendNamed(_)
            | OpCode::StartSupervisor | OpCode::SuperviseChild(_) | OpCode::RestartChild(_) | OpCode::Import(_)
            | OpCode::Spawn => self.exec_service(ins),
            _ => if is_value(ins) {
                self.exec_stack_value(ins)
            } else {
                self.ip = self.ip + 1;
                (out, Ok(ProcRequest::Continue))
            },
        }
    }

    /// Runs a value instruction of the stack machine on the process's stack
    /// (see [`pvalue`]).
    fn exec_stack_value(&mut self, ins: &OpCode) -> (r: (Vec<(ProcId, Message)>, Result<ProcRequest, VMError>))
        requires
            is_value_op(opcode_model(*ins)),
            old(self).ip < usize::MAX,
        ensures
            step_ok(*old(self), *final(self), r.0@, r.1, pvalue(old(self).model(), opcode_model(*ins))),
    {
        let out: Vec<(ProcId, Message)> = Vec::new();
        assert(outbox_model(out@) =~= Seq::<(u64, MessageModel)>::empty());
        let mut vm = VM::new(Vec::new());
        let mut st: Vec<Value> = Vec::new();
        std::mem::swap(&mut st, &mut self.stack);
        vm.stack = st;
        vm.ip = self.ip;
        let res = vm.exec_value(ins);
        let mut back: Vec<Value> = Vec::new();
        std::mem::swap(&mut back, &mut vm.stack);
        self.stack = back;
        match res {
            Ok(MachineEffect::Done) => {
                self.ip = self.ip + 1;
                (out, Ok(ProcRequest::Continue))
            },
            Ok(MachineEffect::Print(v)) => {
                self.ip = self.ip + 1;
                (out, Ok(ProcRequest::Print(v)))
            },
            Ok(MachineEffect::Arith { op, a, b }) => (out, Ok(ProcRequest::Arith { op, a, b })),
            Ok(MachineEffect::Test { test, a, b }) => (out, Ok(ProcRequest::Test { test, a, b })),
            Ok(_) => (out, Ok(ProcRequest::DivideOverflow)),
            Err(e) => (out, Err(e)),
        }
    }
}

impl TinyProc {
    /// One step (see [`pstep`]): past the end of the program the process
    /// exits normally; out of reductions it waits; otherwise it handles its
    /// system messages and, unless an exit signal ended it, counts and
    /// executes the instruction at its instruction pointer. Gives the
    /// messages to send and the request for the scheduler.
    pub fn step(&mut self) -> (r: (Vec<(ProcId, Message)>, Result<ProcRequest, VMError>))
        requires
            old(self).instruction_count < usize::MAX,
        ensures
            ({
                let e = pstep(
                    old(self).model(),
                    program_model(old(self).instructions@),
                    old(self).reduction_count < old(self).max_reductions,
                );
                final(self).model() == e.0 && outbox_model(r.0@) == e.1 && result_ok(r.1, e.2)
            }),
            same_frame(*old(self), *final(self)),
            ({
                let n: int = if executes(
                    old(self).model(),
                    program_model(old(self).instructions@),
                    old(self).reduction_count < old(self).max_reductions,
                ) {
                    1
                } else {
                    0
                };
                final(self).reduction_count == old(self).reduction_count + n && final(self).instruction_count
                    == old(self).instruction_count + n
            }),
    {
        let ghost prog = program_model(self.instructions@);
        if self.ip >= self.instructions.len() {
            let notes = self.handle_process_exit("normal".to_owned());
            return (notes, Ok(ProcRequest::Continue));
        }
        if !self.has_reductions_left() {
            self.state = ProcState::Waiting;
            let out: Vec<(ProcId, Message)> = Vec::new();
            assert(outbox_model(out@) =~= Seq::<(u64, MessageModel)>::empty());
            return (out, Ok(ProcRequest::Continue));
        }
        let ghost p1 = self.model();
        let (mut out, stopped) = self.drain_mailbox();
        proof {
            lemma_drain_keeps(p1, Seq::empty(), Seq::empty(), p1.mailbox);
        }
        if stopped {
            return (out, Ok(ProcRequest::Continue));
        }
        let ins = self.instructions[self.ip].copy();
        assert(prog[self.ip as int] == opcode_model(ins));
        self.reduction_count = self.reduction_count + 1;
        self.instruction_count = self.instruction_count + 1;
        let (more, res) = self.execute_instruction_safe(&ins);
        append_out(&mut out, more);
        (out, res)
    }

    /// Starts a time slice: the process runs with a fresh reduction count.
    pub fn begin_slice(&mut self)
        ensures
            final(self).model() == (PModel { state: ProcState::Running, ..old(self).model() }),
            final(self).reduction_count == 0,
            same_frame(*old(self), *final(self)),
            final(self).instruction_count == old(self).instruction_count,
    {
        self.state = ProcState::Running;
        self.reset_reductions();
    }

    /// Whether the slice goes on: the process neither exited nor waits.
    pub fn keeps_running(&self) -> (b: bool)
        ensures
            b == !(self.model().state == ProcState::Exited || self.model().state == ProcState::Waiting),
    {
        !(self.state == ProcState::Exited || self.state == ProcState::Waiting)
    }

    /// Completes a float request: pushes the host's result and moves on.
    pub fn complete_float(&mut self, bits: u64)
        requires
            old(self).ip < usize::MAX,
        ensures
            final(self).model() == adv(ppush(old(self).model(), ValueModel::Float(bits))),
            same_rest(*old(self), *final(self)),
    {
        let _ = self.push_next(Value::Float(bits));
    }

    /// Completes a comparison request: pushes 1 or 0 and moves on.
    pub fn complete_test(&mut self, result: bool)
        requires
            old(self).ip < usize::MAX,
        ensures
            final(self).model() == adv(ppush(old(self).model(), truth(result))),
            same_rest(*old(self), *final(self)),
    {
        let _ = self.push_next(Value::Int(if result { 1 } else { 0 }));
    }

    /// Completes a spawn request: pushes the new process's id and moves on.
    pub fn complete_spawn(&mut self, pid: ProcId)
        requires
            old(self).ip < usize::MAX,
        ensures
            final(self).model() == adv(ppush(old(self).model(), pid_value(pid))),
            same_rest(*old(self), *final(self)),
    {
        let _ = self.push_next(Value::Int(pid as i64));
    }

    /// Completes a name lookup: pushes the process found, or 0.
    pub fn complete_whereis(&mut self, found: Option<ProcId>)
        requires
            old(self).ip < usize::MAX,
        ensures
            final(self).model() == adv(ppush(
                old(self).model(),
                match found {
                    Some(pid) => pid_value(pid),
                    None => ValueModel::Int(0),
                },
            )),
            same_rest(*old(self), *final(self)),
    {
        match found {
            Some(pid) => {
                let _ = self.push_next(Value::Int(pid as i64));
            },
            None => {
                let _ = self.push_next(Value::Int(0));
            },
        }
    }

    /// Completes the checked send of the current instruction (see
    /// [`send_done`]).
    pub fn complete_send(&mut self, d: Delivery)
        requires
            old(self).ip < old(self).instructions@.len(),
        ensures
            final(self).model() == send_done(
                old(self).model(),
                opcode_model(old(self).instructions@[old(self).ip as int]),
                d@,
            ),
            same_rest(*old(self), *final(self)),
    {
        let _n = self.instructions.len();
        let ins = self.instructions[self.ip].copy();
        match ins {
            OpCode::Monitor(t) => match d {
                Delivery::Delivered => {
                    let r = monitor_ref_text(self.id, t);
                    let _ = self.push_next(Value::Str(r));
                },
                Delivery::Failed => {
                    let r = monitor_ref_text(self.id, t);
                    let _ = self.demonitor_process(r.as_str());
                    let _ = self.push_next(Value::Str("monitor_failed".to_owned()));
                },
                Delivery::NoSender => {
                    let _ = self.push_next(Value::Str("monitor_failed".to_owned()));
                },
            },
            OpCode::Demonitor(_) => {
                let t = if d == Delivery::Delivered {
                    "demonitor_success".to_owned()
                } else {
                    "demonitor_failed".to_owned()
                };
                let _ = self.push_next(Value::Str(t));
            },
            OpCode::Link(t) => match d {
                Delivery::Delivered => {
                    let _ = self.push_next(Value::Str(with_pid("linked_", t)));
                },
                Delivery::Failed => {
                    self.unlink_process(t);
                    let _ = self.push_next(Value::Str("link_failed".to_owned()));
                },
                Delivery::NoSender => {
                    let _ = self.push_next(Value::Str("link_failed".to_owned()));
                },
            },
            OpCode::Unlink(t) => {
                let s = if d == Delivery::Delivered {
                    with_pid("unlinked_", t)
                } else {
                    "unlink_failed".to_owned()
                };
                let _ = self.push_next(Value::Str(s));
            },
            _ => {
                self.ip = self.ip + 1;
            },
        }
    }

    /// Completes `REGISTER`, `UNREGISTER` or `SEND_NAMED` with the
    /// registry's reply (`None` when there is no registry; see
    /// [`registry_done`]).
    pub fn complete_registry(&mut self, reply: Option<Result<(), String>>)
        requires
            old(self).ip < old(self).instructions@.len(),
        ensures
            final(self).model() == registry_done(
                old(self).model(),
                opcode_model(old(self).instructions@[old(self).ip as int]),
                match reply {
                    Some(Ok(())) => Some(Ok(())),
                    Some(Err(e)) => Some(Err(e@)),
                    None => None,
                },
            ),
            same_rest(*old(self), *final(self)),
    {
        let _n = self.instructions.len();
        let ins = self.instructions[self.ip].copy();
        match ins {
            OpCode::Register(n) => {
                let t = reply_string(&reply, "registered_", "register_failed_", "register_failed_no_registry", n.as_str());
                let _ = self.push_next(Value::Str(t));
            },
            OpCode::Unregister(n) => {
                let t = reply_string(
                    &reply,
                    "unregistered_",
                    "unregister_failed_",
                    "unregister_failed_no_registry",
                    n.as_str(),
                );
                let _ = self.push_next(Value::Str(t));
            },
            OpCode::SendNamed(n) => {
                let t = reply_string(&reply, "sent_to_", "send_failed_", "send_failed_no_registry", n.as_str());
                let _ = self.push_next(Value::Str(t));
            },
            _ => {
                self.ip = self.ip + 1;
            },
        }
    }

    /// Completes `RESTART_CHILD` given whether the restart period has passed
    /// (see [`restart_done`]).
    pub fn complete_restart(&mut self, elapsed: bool)
        requires
            old(self).ip < old(self).instructions@.len(),
        ensures
            final(self).model() == restart_done(
                old(self).model(),
                opcode_model(old(self).instructions@[old(self).ip as int]),
                elapsed,
            ),
            same_rest(*old(self), *final(self)),
    {
        let _n = self.instructions.len();
        let ins = self.instructions[self.ip].copy();
        match ins {
            OpCode::RestartChild(c) => {
                let limit: usize = match &self.supervisor_spec {
                    Some(spec) => spec.intensity,
                    None => 0,
                };
                let allowed = elapsed || self.restart_intensity_count < limit;
                if elapsed {
                    self.restart_intensity_count = 0;
                }
                if allowed {
                    self.restart_intensity_count = self.restart_intensity_count + 1;
                    let _ = self.push_next(Value::Str(with_str("restarting_", c.as_str())));
                } else {
                    let _ = self.push_next(Value::Str(with_str("restart_limit_exceeded_", c.as_str())));
                }
            },
            _ => {
                self.ip = self.ip + 1;
            },
        }
    }

    /// Completes an import: on success the process moves on; a failure is
    /// the step's error.
    pub fn finish_import(&mut self, result: Result<(), VMError>) -> (r: Result<(), VMError>)
        requires
            old(self).ip < usize::MAX,
        ensures
            match result {
                Ok(()) => r is Ok && final(self).model() == adv(old(self).model()),
                Err(e) => r is Err && r->Err_0@ == e@ && final(self).model() == old(self).model(),
            },
            same_rest(*old(self), *final(self)),
    {
        match result {
            Ok(()) => {
                self.ip = self.ip + 1;
                Ok(())
            },
            Err(e) => Err(e),
        }
    }

    /// The first part of `IMPORT path` for a process. A module that is
    /// still being loaded is a circular import, an error; a module loaded
    /// before needs nothing more (`Ok(false)`); otherwise the module goes on
    /// the loading stack and the host must load and run it (`Ok(true)`),
    /// then hand the outcome to [`TinyProc::end_import`].
    pub fn begin_import(&mut self, path: &str) -> (r: Result<bool, VMError>)
        ensures
            final(self).model() == old(self).model(),
            same_rest(*old(self), TinyProc { loading_stack: old(self).loading_stack, ..*final(self) }),
            strings_model(old(self).loading_stack@).contains(path@) ==> r is Err && r->Err_0@ == circular_import(
                path@,
            ) && final(self).loading_stack == old(self).loading_stack,
            !strings_model(old(self).loading_stack@).contains(path@) && key_at(
                modules_model(old(self).loaded_modules@),
                path@,
            ) is Some ==> r == Ok::<bool, VMError>(false) && final(self).loading_stack == old(self).loading_stack,
            !strings_model(old(self).loading_stack@).contains(path@) && key_at(
                modules_model(old(self).loaded_modules@),
                path@,
            ) is None ==> r == Ok::<bool, VMError>(true) && strings_model(final(self).loading_stack@) == strings_model(
                old(self).loading_stack@,
            ).push(path@),
    {
        if is_loading(&self.loading_stack, path) {
            return Err(circular_error(path));
        }
        match find_module(&self.loaded_modules, path) {
            Some(_) => Ok(false),
            None => {
                let ghost before = self.loading_stack@;
                self.loading_stack.push(path.to_owned());
                assert(strings_model(self.loading_stack@) =~= strings_model(before).push(path@));
                Ok(true)
            },
        }
    }

    /// The last part of `IMPORT path` for a process: `path` leaves the
    /// loading stack; the exports of a module that ran are cached under
    /// `path`, and a failure to load or run it is the import's error.
    pub fn end_import(&mut self, path: String, outcome: Result<Vec<(String, Value)>, VMError>) -> (r: Result<
        (),
        VMError,
    >)
        ensures
            final(self).model() == old(self).model(),
            same_rest(
                *old(self),
                TinyProc {
                    loading_stack: old(self).loading_stack,
                    loaded_modules: old(self).loaded_modules,
                    ..*final(self)
                },
            ),
            strings_model(final(self).loading_stack@) == pop_loading(strings_model(old(self).loading_stack@)),
            match outcome {
                Ok(exports) => r is Ok && modules_model(final(self).loaded_modules@) == table_put(
                    modules_model(old(self).loaded_modules@),
                    path@,
                    entries_model(exports@),
                ),
                Err(e) => r is Err && r->Err_0@ == e@ && final(self).loaded_modules == old(self).loaded_modules,
            },
    {
        let ghost before = self.loading_stack@;
        self.loading_stack.pop();
        assert(strings_model(self.loading_stack@) =~= pop_loading(strings_model(before)));
        match outcome {
            Ok(exports) => {
                put_module(&mut self.loaded_modules, path, exports);
                Ok(())
            },
            Err(e) => Err(e),
        }
    }

    /// Records a started child under its name, replacing an earlier child
    /// of that name.
    pub fn add_child(&mut self, spec: ChildSpec, pid: ProcId)
        ensures
            final(self).model() == (PModel {
                children: if old(self).model().children.contains(spec.id@) {
                    old(self).model().children
                } else {
                    old(self).model().children.push(spec.id@)
                },
                ..old(self).model()
            }),
            final(self).instructions == old(self).instructions,
    {
        let ghost names = self.model().children;
        let ghost name = spec.id@;
        let mut i: usize = 0;
        while i < self.supervised_children.len()
            invariant
                i <= self.supervised_children@.len(),
                names == child_names(self.supervised_children@),
                names == old(self).model().children,
                name == spec.id@,
                *self == *old(self),
                forall|j: int| 0 <= j < i ==> names[j] != spec.id@,
            decreases self.supervised_children.len() - i,
        {
            if str_eq(self.supervised_children[i].0.as_str(), spec.id.as_str()) {
                assert(names[i as int] == self.supervised_children@[i as int].0@);
                let key = spec.id.clone();
                self.supervised_children.set(i, (key, ChildState { pid, spec, restart_count: 0 }));
                assert(names.contains(name)) by {
                    assert(names[i as int] == name);
                }
                assert(child_names(self.supervised_children@) =~= names);
                return;
            }
            i = i + 1;
        }
        let key = spec.id.clone();
        self.supervised_children.push((key, ChildState { pid, spec, restart_count: 0 }));
        assert(child_names(self.supervised_children@) =~= names.push(name));
    }
}

fn reply_string(reply: &Option<Result<(), String>>, ok: &str, failed: &str, missing: &str, name: &str) -> (r: String)
    ensures
        r@ == reply_text(
            match reply {
                Some(Ok(())) => Some(Ok(())),
                Some(Err(e)) => Some(Err(e@)),
                None => None,
            },
            ok@,
            failed@,
            missing@,
            name@,
        ),
{
    match reply {
        Some(Ok(())) => with_str(ok, name),
        Some(Err(e)) => with_str(failed, e.as_str()),
        None => missing.to_owned(),
    }
}

proof fn lemma_drain_keeps(
    p: PModel,
    kept: Seq<MessageModel>,
    out: Seq<(u64, MessageModel)>,
    rest: Seq<MessageModel>,
)
    ensures
        drain(p, kept, out, rest).0.ip == p.ip,
        drain(p, kept, out, rest).0.id == p.id,
        drain(p, kept, out, rest).0.stack == p.stack,
    decreases rest.len(),
{
    if rest.len() > 0 {
        let m = rest[0];
        let more = rest.drop_first();
        match m {
            MessageModel::Exit(pid) => {
                lemma_drain_keeps(p, kept.push(m), out, more);
                lemma_drain_keeps(p, kept, out, more);
            },
            MessageModel::TrapExit(t) => lemma_drain_keeps(PModel { trap_exit: t, ..p }, kept, out, more),
            MessageModel::Link(pid) => {
                lemma_drain_keeps(PModel { links: set_add(p.links, pid), ..p }, kept, out, more);
                lemma_drain_keeps(
                    PModel { links: set_add(p.links, pid), ..p },
                    kept,
                    out.push((pid, MessageModel::Link(p.id))),
                    more,
                );
            },
            MessageModel::Unlink(pid) => lemma_drain_keeps(PModel { links: set_del(p.links, pid), ..p }, kept, out, more),
            MessageModel::Monitor(pid, r) => lemma_drain_keeps(
                PModel { monitored_by: table_put(p.monitored_by, pid, r), ..p },
                kept,
                out,
                more,
            ),
            _ => lemma_drain_keeps(p, kept.push(m), out, more),
        }
    }
}

/// The program a spawn runs when no program file of that name exists: a
/// greeting for `hello_world`, a count to three for `counter`, and
/// otherwise a line naming the process.
pub open spec fn fallback_program(name: Option<Seq<char>>) -> Seq<OpCodeModel> {
    match name {
        Some(s) => if s == "hello_world"@ {
            seq![OpCodeModel::PushStr("Hello from spawned process!"@), OpCodeModel::Print, OpCodeModel::Halt]
        } else if s == "counter"@ {
            seq![
                OpCodeModel::PushInt(1),
                OpCodeModel::Print,
                OpCodeModel::PushInt(2),
                OpCodeModel::Print,
                OpCodeModel::PushInt(3),
                OpCodeModel::Print,
                OpCodeModel::Halt,
            ]
        } else {
            seq![OpCodeModel::PushStr("Spawned process: "@ + s), OpCodeModel::Print, OpCodeModel::Halt]
        },
        None => seq![OpCodeModel::PushStr("Spawned process"@), OpCodeModel::Print, OpCodeModel::Halt],
    }
}

/// The program of a spawn that found no program file (see
/// [`fallback_program`]).
pub fn spawn_fallback(name: &Option<String>) -> (r: Vec<OpCode>)
    ensures
        program_model(r@) == fallback_program(
            match name {
                Some(s) => Some(s@),
                None => None,
            },
        ),
{
    let mut r: Vec<OpCode> = Vec::new();
    match name {
        Some(s) => {
            if str_eq(s.as_str(), "hello_world") {
                r.push(OpCode::PushStr("Hello from spawned process!".to_owned()));
                r.push(OpCode::Print);
                r.push(OpCode::Halt);
            } else if str_eq(s.as_str(), "counter") {
                r.push(OpCode::PushInt(1));
                r.push(OpCode::Print);
                r.push(OpCode::PushInt(2));
                r.push(OpCode::Print);
                r.push(OpCode::PushInt(3));
                r.push(OpCode::Print);
                r.push(OpCode::Halt);
            } else {
                r.push(OpCode::PushStr(with_str("Spawned process: ", s.as_str())));
                r.push(OpCode::Print);
                r.push(OpCode::Halt);
            }
        },
        None => {
            r.push(OpCode::PushStr("Spawned process".to_owned()));
            r.push(OpCode::Print);
            r.push(OpCode::Halt);
        },
    }
    assert(program_model(r@) =~= fallback_program(
        match name {
            Some(s) => Some(s@),
            None => None,
        },
    ));
    r
}

/// The program of a spawn whose program file did not parse: it prints
/// `Failed to load <name>` and halts.
pub fn load_failure_program(name: &str) -> (r: Vec<OpCode>)
    ensures
        program_model(r@) == seq![
            OpCodeModel::PushStr("Failed to load "@ + name@),
            OpCodeModel::Print,
            OpCodeModel::Halt,
        ],
{
    let mut r: Vec<OpCode> = Vec::new();
    r.push(OpCode::PushStr(with_str("Failed to load ", name)));
    r.push(OpCode::Print);
    r.push(OpCode::Halt);
    assert(program_model(r@) =~= seq![
        OpCodeModel::PushStr("Failed to load "@ + name@),
        OpCodeModel::Print,
        OpCodeModel::Halt,
    ]);
    r
}

/// Message passing: a process whose mailbox holds just a value sent to it,
/// stepping on a `RECEIVE` with reductions left, takes the value onto its
/// stack, empties its mailbox, moves on and sends nothing.
pub proof fn law_send_then_receive(p: PModel, prog: Seq<OpCodeModel>, v: ValueModel)
    requires
        0 <= p.ip < prog.len(),
        prog[p.ip] == OpCodeModel::Receive,
        p.mailbox == seq![MessageModel::Value(v)],
    ensures
        pstep(p, prog, true).0.stack == p.stack.push(v),
        pstep(p, prog, true).0.mailbox.len() == 0,
        pstep(p, prog, true).0.ip == p.ip + 1,
        pstep(p, prog, true).1.len() == 0,
        pstep(p, prog, true).2 == Ok::<PRequest, VMErrorModel>(PRequest::Continue),
{
    let m = MessageModel::Value(v);
    let ms = seq![m];
    assert(ms.drop_first() =~= Seq::<MessageModel>::empty());
    assert(Seq::<MessageModel>::empty().push(m) =~= ms);
    let d = drain(p, Seq::empty(), Seq::empty(), p.mailbox);
    assert(d == drain(p, seq![m], Seq::empty(), Seq::empty()));
    assert(d.0.mailbox == ms);
    assert(!d.2);
    assert(d.1 =~= Seq::<(u64, MessageModel)>::empty());
    assert(d.0.mailbox.drop_first() =~= Seq::<MessageModel>::empty());
    let e = pexec(d.0, prog[p.ip]);
    assert(e.1 =~= Seq::<(u64, MessageModel)>::empty());
    assert(d.1 + e.1 =~= Seq::<(u64, MessageModel)>::empty());
}

/// What the round-robin scheduler does with a process after its turn.
#[derive(Clone, Copy, PartialEq, Eq, Structural, Debug)]
pub enum Turn {
    /// The process exited: it leaves the run queue.
    Remove,
    /// The process can run again.
    Active,
    /// The process waits for a message that has not come.
    Idle,
}

impl TinyProc {
    /// After a time slice: an exited process leaves, one that yielded or
    /// waits becomes ready again, any other stays active.
    pub fn finish_slice(&mut self) -> (t: Turn)
        ensures
            old(self).state == ProcState::Exited ==> t == Turn::Remove && final(self).model() == old(self).model(),
            old(self).state == ProcState::Waiting ==> t == Turn::Active && final(self).model() == (PModel {
                state: ProcState::Ready,
                ..old(self).model()
            }),
            !(old(self).state == ProcState::Exited || old(self).state == ProcState::Waiting) ==> t == Turn::Active
                && final(self).model() == old(self).model(),
            same_rest(*old(self), *final(self)),
    {
        if self.state == ProcState::Exited {
            Turn::Remove
        } else if self.state == ProcState::Waiting {
            self.state = ProcState::Ready;
            Turn::Active
        } else {
            Turn::Active
        }
    }

    /// A waiting process's turn: one waiting for a message becomes ready
    /// when a message is there, one that only yielded becomes ready, and
    /// one still without its message stays idle.
    pub fn poll_waiting(&mut self) -> (t: Turn)
        ensures
            old(self).waiting_for_message && old(self).mailbox@.len() > 0 ==> t == Turn::Active && final(self).model()
                == (PModel { waiting: false, state: ProcState::Ready, ..old(self).model() }),
            !old(self).waiting_for_message ==> t == Turn::Active && final(self).model() == (PModel {
                state: ProcState::Ready,
                ..old(self).model()
            }),
            old(self).waiting_for_message && old(self).mailbox@.len() == 0 ==> t == Turn::Idle && final(self).model()
                == old(self).model(),
            same_rest(*old(self), *final(self)),
    {
        if self.waiting_for_message && self.has_messages() {
            self.waiting_for_message = false;
            self.state = ProcState::Ready;
            Turn::Active
        } else if !self.waiting_for_message {
            self.state = ProcState::Ready;
            Turn::Active
        } else {
            Turn::Idle
        }
    }
}

/// Whether an instruction is one of the process instructions.
pub open spec fn is_process_op(op: OpCodeModel) -> bool {
    ||| op is Spawn
    ||| op is Receive
    ||| op is ReceiveMatch
    ||| op is Yield
    ||| op is Send
    ||| op is Monitor
    ||| op is Demonitor
    ||| op is Link
    ||| op is Unlink
    ||| op is TrapExit
    ||| op is Register
    ||| op is Unregister
    ||| op is Whereis
    ||| op is SendNamed
    ||| op is StartSupervisor
    ||| op is SuperviseChild
    ||| op is RestartChild
}

/// Whether a program uses processes, so that it must run under a scheduler.
pub fn program_has_concurrency(program: &Vec<OpCode>) -> (b: bool)
    ensures
        b == exists|i: int| 0 <= i < program@.len() && is_process_op(#[trigger] opcode_model(program@[i])),
{
    let mut i: usize = 0;
    while i < program.len()
        invariant
            i <= program@.len(),
            forall|j: int| 0 <= j < i ==> !is_process_op(#[trigger] opcode_model(program@[j])),
        decreases program.len() - i,
    {
        let hit = match &program[i] {
            OpCode::Spawn | OpCode::Receive | OpCode::ReceiveMatch(_) | OpCode::Yield | OpCode::Send(_)
            | OpCode::Monitor(_) | OpCode::Demonitor(_) | OpCode::Link(_) | OpCode::Unlink(_) | OpCode::TrapExit
            | OpCode::Register(_) | OpCode::Unregister(_) | OpCode::Whereis(_) | OpCode::SendNamed(_)
            | OpCode::StartSupervisor | OpCode::SuperviseChild(_) | OpCode::RestartChild(_) => true,
            _ => false,
        };
        if hit {
            assert(is_process_op(opcode_model(program@[i as int])));
            return true;
        }
        i = i + 1;
    }
    false
}

} // verus!
