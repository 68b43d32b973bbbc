//! The model of a process: its state, what one step does to it, and the
//! tables (monitors, watchers, links) it keeps.
use vstd::prelude::*;
use crate::ProcState;
use crate::concurrency::messages::MessageModel;
use crate::ir::vm::{FloatTest, IntOp};
use crate::text::nat_text;
use crate::vm::equality::value_eq;
use crate::vm::errors::VMErrorModel;
use crate::vm::machine::{MEffect, MState, Num, float_of, initial_state, is_value_op, mismatch2, value_step};
use crate::vm::opcode::{OpCodeModel, PatternModel};
use crate::vm::value::{FloatOp, ValueModel, is_float_zero};

verus! {

/// The first position of key `k` in a table of pairs.
pub open spec fn key_at<K, V>(s: Seq<(K, V)>, k: K) -> Option<int>
    decreases s.len(),
{
    if s.len() == 0 {
        None
    } else if s[0].0 == k {
        Some(0)
    } else {
        match key_at(s.drop_first(), k) {
            Some(i) => Some(i + 1),
            None => None,
        }
    }
}

/// The value of key `k` in a table.
pub open spec fn table_get<K, V>(s: Seq<(K, V)>, k: K) -> Option<V> {
    match key_at(s, k) {
        Some(i) => Some(s[i].1),
        None => None,
    }
}

/// `HashMap::insert` on a table: the entry of `k` gets `v`, or one is added.
pub open spec fn table_put<K, V>(s: Seq<(K, V)>, k: K, v: V) -> Seq<(K, V)> {
    match key_at(s, k) {
        Some(i) => s.update(i, (k, v)),
        None => s.push((k, v)),
    }
}

/// `HashMap::remove` on a table: the entry of `k` leaves.
pub open spec fn table_del<K, V>(s: Seq<(K, V)>, k: K) -> Seq<(K, V)> {
    match key_at(s, k) {
        Some(i) => s.remove(i),
        None => s,
    }
}

/// The first position of `x` in a sequence.
pub open spec fn elem_at(s: Seq<u64>, x: u64) -> Option<int>
    decreases s.len(),
{
    if s.len() == 0 {
        None
    } else if s[0] == x {
        Some(0)
    } else {
        match elem_at(s.drop_first(), x) {
            Some(i) => Some(i + 1),
            None => None,
        }
    }
}

/// `HashSet::insert` on a sequence of process ids.
pub open spec fn set_add(s: Seq<u64>, x: u64) -> Seq<u64> {
    if elem_at(s, x) is Some {
        s
    } else {
        s.push(x)
    }
}

/// `HashSet::remove` on a sequence of process ids.
pub open spec fn set_del(s: Seq<u64>, x: u64) -> Seq<u64> {
    match elem_at(s, x) {
        Some(i) => s.remove(i),
        None => s,
    }
}

/// The state of a process that its instructions read and write.
pub struct PModel {
    pub id: u64,
    pub state: ProcState,
    pub stack: Seq<ValueModel>,
    pub ip: int,
    pub mailbox: Seq<MessageModel>,
    pub waiting: bool,
    /// Monitor reference to the monitored process.
    pub monitors: Seq<(Seq<char>, u64)>,
    /// Monitoring process to its monitor reference.
    pub monitored_by: Seq<(u64, Seq<char>)>,
    pub links: Seq<u64>,
    pub exit_reason: Option<Seq<char>>,
    pub trap_exit: bool,
    pub supervisor_pid: Option<u64>,
    /// The restart limit, for a supervisor.
    pub intensity: Option<usize>,
    /// The names of the supervised children.
    pub children: Seq<Seq<char>>,
    pub restarts: usize,
}

/// What a step asks of the host.
pub enum PRequest {
    /// Nothing: the step is over.
    Continue,
    /// Print the value; the instruction is complete.
    Print(ValueModel),
    /// Compute `a op b` as floats and complete with the result.
    Arith { op: FloatOp, a: Num, b: Num },
    /// Compare floats and complete with the answer.
    Test { test: FloatTest, a: u64, b: u64 },
    /// `i64::MIN / -1`: the process aborts on it.
    DivideOverflow,
    /// Start a process running the named program (`None`: a value that is
    /// no name) and complete with its id.
    Spawn(Option<Seq<char>>),
    /// Send the message and complete with how the delivery went.
    SendChecked { to: u64, msg: MessageModel },
    /// Register this process under the name and complete with the reply.
    Register(Seq<char>),
    /// Remove the name and complete with the reply.
    Unregister(Seq<char>),
    /// Look the name up and complete with the process found.
    Whereis(Seq<char>),
    /// Send the value to the named process and complete with the reply.
    SendNamed(Seq<char>, ValueModel),
    /// Tell whether the supervisor's restart period has passed.
    RestartWindow,
    /// Import the module at the path and complete with the outcome.
    Import(Seq<char>),
}

/// What a step does: the new state, the messages to send (whose delivery
/// is not checked) and the request or the error.
pub type PStep = (PModel, Seq<(u64, MessageModel)>, Result<PRequest, VMErrorModel>);

/// The reason a process exits with when a linked process `pid` exited.
pub open spec fn exit_from(pid: u64) -> Seq<char> {
    "exit_from_"@ + nat_text(pid as nat)
}

/// The reference of a monitor set up by process `id` on `target`.
pub open spec fn monitor_ref(id: u64, target: u64) -> Seq<char> {
    "mon_"@ + nat_text(id as nat) + "_"@ + nat_text(target as nat)
}

/// The notices a process sends when it exits for `reason`: a down notice
/// for each monitor it holds and for each process watching it, an exit
/// signal to each linked process, and a note to its supervisor.
pub open spec fn exit_notices(p: PModel, reason: Seq<char>) -> Seq<(u64, MessageModel)> {
    Seq::new(p.monitors.len(), |i: int| (p.monitors[i].1, MessageModel::Down(p.id, p.monitors[i].0, reason)))
        + Seq::new(
        p.monitored_by.len(),
        |i: int| (p.monitored_by[i].0, MessageModel::Down(p.id, p.monitored_by[i].1, reason)),
    ) + Seq::new(p.links.len(), |i: int| (p.links[i], MessageModel::Exit(p.id))) + match p.supervisor_pid {
        Some(sp) => seq![
            (
                sp,
                MessageModel::Signal("child_exit_"@ + nat_text(p.id as nat) + "_"@ + reason),
            ),
        ],
        None => Seq::empty(),
    }
}

/// The process after exiting for `reason`.
pub open spec fn exited(p: PModel, reason: Seq<char>) -> PModel {
    PModel { exit_reason: Some(reason), state: ProcState::Exited, ..p }
}

/// The system messages at the head of a step, handled in order: an exit
/// signal from a linked process ends the process (unless it traps exits,
/// when the signal stays for `RECEIVE`), `TrapExit`, `Link`, `Unlink` and
/// `Monitor` take effect, and every other message stays, in order.
/// `kept` are the messages that stay so far, `out` the messages to send.
pub open spec fn drain(p: PModel, kept: Seq<MessageModel>, out: Seq<(u64, MessageModel)>, rest: Seq<MessageModel>) -> (
    PModel,
    Seq<(u64, MessageModel)>,
    bool,
)
    decreases rest.len(),
{
    if rest.len() == 0 {
        (PModel { mailbox: kept, ..p }, out, false)
    } else {
        let m = rest[0];
        let more = rest.drop_first();
        match m {
            MessageModel::Exit(pid) => if elem_at(p.links, pid) is Some {
                if p.trap_exit {
                    drain(p, kept.push(m), out, more)
                } else {
                    (
                        PModel { mailbox: more + kept, ..exited(p, exit_from(pid)) },
                        out + exit_notices(p, exit_from(pid)),
                        true,
                    )
                }
            } else {
                drain(p, kept, out, more)
            },
            MessageModel::TrapExit(t) => drain(PModel { trap_exit: t, ..p }, kept, out, more),
            MessageModel::Link(pid) => drain(
                PModel { links: set_add(p.links, pid), ..p },
                kept,
                if elem_at(p.links, pid) is Some {
                    out
                } else {
                    out.push((pid, MessageModel::Link(p.id)))
                },
                more,
            ),
            MessageModel::Unlink(pid) => drain(PModel { links: set_del(p.links, pid), ..p }, kept, out, more),
            MessageModel::Monitor(pid, r) => drain(
                PModel { monitored_by: table_put(p.monitored_by, pid, r), ..p },
                kept,
                out,
                more,
            ),
            _ => drain(p, kept.push(m), out, more),
        }
    }
}

/// Whether a message matches a pattern of a selective receive.
pub open spec fn pattern_matches(m: MessageModel, pat: PatternModel) -> bool {
    match pat {
        PatternModel::Any => true,
        PatternModel::Value(pv) => match m {
            MessageModel::Value(v) => value_eq(v, pv),
            _ => false,
        },
        PatternModel::Signal(ps) => m == MessageModel::Signal(ps),
        PatternModel::Exit(pp) => match m {
            MessageModel::Exit(pid) => pp is None || pp == Some(pid),
            _ => false,
        },
        PatternModel::Down(pp, _) => match m {
            MessageModel::Down(pid, _, _) => pp is None || pp == Some(pid),
            _ => false,
        },
        PatternModel::Link(pp) => match m {
            MessageModel::Link(pid) => pp is None || pp == Some(pid),
            _ => false,
        },
        PatternModel::Type(t) => match m {
            MessageModel::Value(v) => match v {
                ValueModel::Int(_) => t == "int"@,
                ValueModel::Float(_) => t == "float"@,
                ValueModel::Str(_) => t == "string"@,
                ValueModel::Bool(_) => t == "bool"@,
                ValueModel::List(_) => t == "list"@,
                ValueModel::Object(_) => t == "object"@,
                _ => false,
            },
            _ => false,
        },
        PatternModel::Guard(_) => false,
    }
}

/// Whether a message matches one of the patterns.
pub open spec fn matches_any(m: MessageModel, pats: Seq<PatternModel>) -> bool {
    exists|j: int| 0 <= j < pats.len() && pattern_matches(m, #[trigger] pats[j])
}

/// The position of the first message that matches one of the patterns.
pub open spec fn first_match(msgs: Seq<MessageModel>, pats: Seq<PatternModel>) -> Option<int>
    decreases msgs.len(),
{
    if msgs.len() == 0 {
        None
    } else if matches_any(msgs[0], pats) {
        Some(0)
    } else {
        match first_match(msgs.drop_first(), pats) {
            Some(i) => Some(i + 1),
            None => None,
        }
    }
}

/// `p` with `v` pushed.
pub open spec fn ppush(p: PModel, v: ValueModel) -> PModel {
    PModel { stack: p.stack.push(v), ..p }
}

/// `p` moved to the next instruction.
pub open spec fn adv(p: PModel) -> PModel {
    PModel { ip: p.ip + 1, ..p }
}

/// A completed instruction that pushed `v`.
pub open spec fn pushed(p: PModel, v: ValueModel) -> PStep {
    (adv(ppush(p, v)), Seq::empty(), Ok(PRequest::Continue))
}

/// A string value.
pub open spec fn text(s: Seq<char>) -> ValueModel {
    ValueModel::Str(s)
}

/// A process id as an integer value.
pub open spec fn pid_value(pid: u64) -> ValueModel {
    ValueModel::Int(pid as i64)
}

/// The process waits for a message, staying on the instruction.
pub open spec fn wait(p: PModel) -> PStep {
    (PModel { waiting: true, state: ProcState::Waiting, ..p }, Seq::empty(), Ok(PRequest::Continue))
}

/// A received message `m` taken in (`p` no longer holds it). In a selective
/// receive an exit signal is pushed as text when the process traps exits.
pub open spec fn take_message(p: PModel, m: MessageModel, selective: bool) -> PStep {
    match m {
        MessageModel::Value(v) => pushed(p, v),
        MessageModel::Signal(s) => pushed(p, text(s)),
        MessageModel::Exit(pid) => if selective && p.trap_exit {
            pushed(p, text("exit:"@ + nat_text(pid as nat)))
        } else if elem_at(p.links, pid) is Some {
            (exited(p, exit_from(pid)), exit_notices(p, exit_from(pid)), Ok(PRequest::Continue))
        } else {
            pushed(p, pid_value(pid))
        },
        MessageModel::Monitor(pid, r) => pushed(
            PModel { monitored_by: table_put(p.monitored_by, pid, r), ..p },
            text("monitor:"@ + r),
        ),
        MessageModel::Down(pid, r, why) => pushed(p, text("down:"@ + nat_text(pid as nat) + ":"@ + r + ":"@ + why)),
        MessageModel::Link(pid) => (
            adv(ppush(PModel { links: set_add(p.links, pid), ..p }, text("linked:"@ + nat_text(pid as nat)))),
            if elem_at(p.links, pid) is Some {
                Seq::empty()
            } else {
                seq![(pid, MessageModel::Link(p.id))]
            },
            Ok(PRequest::Continue),
        ),
        MessageModel::Unlink(pid) => pushed(
            PModel { links: set_del(p.links, pid), ..p },
            text("unlinked:"@ + nat_text(pid as nat)),
        ),
        MessageModel::TrapExit(t) => pushed(PModel { trap_exit: t, ..p }, ValueModel::Bool(t)),
    }
}

/// Pops the top value; an empty stack underflows.
pub open spec fn ppop(p: PModel, op: Seq<char>) -> Result<(PModel, ValueModel), PStep> {
    if p.stack.len() == 0 {
        Err((p, Seq::empty(), Err(VMErrorModel::StackUnderflow(op))))
    } else {
        Ok((PModel { stack: p.stack.drop_last(), ..p }, p.stack.last()))
    }
}

/// A request that leaves the instruction pointer for the completion.
pub open spec fn ask(p: PModel, r: PRequest) -> PStep {
    (p, Seq::empty(), Ok(r))
}

/// `ADD`, `MUL`, `DIV` of a process: integers wrap, anything with a float
/// goes to the host.
pub open spec fn parith(p: PModel, op: IntOp, name: Seq<char>) -> PStep {
    match ppop(p, name) {
        Err(f) => f,
        Ok((t, b)) => match ppop(t, name) {
            Err(f) => f,
            Ok((u, a)) => match (a, b) {
                (ValueModel::Int(x), ValueModel::Int(y)) => match op {
                    IntOp::Add => pushed(u, ValueModel::Int(x.wrapping_add(y))),
                    IntOp::Sub => pushed(u, ValueModel::Int(x.wrapping_sub(y))),
                    IntOp::Mul => pushed(u, ValueModel::Int(x.wrapping_mul(y))),
                    IntOp::Div => match x.checked_div(y) {
                        Some(q) => pushed(u, ValueModel::Int(q)),
                        None => if y == 0 {
                            (u, Seq::empty(), Err(VMErrorModel::DivisionByZero))
                        } else {
                            ask(u, PRequest::DivideOverflow)
                        },
                    },
                },
                (ValueModel::Int(x), ValueModel::Float(y)) => if op == IntOp::Div && is_float_zero(y) {
                    (u, Seq::empty(), Err(VMErrorModel::DivisionByZero))
                } else {
                    ask(u, PRequest::Arith { op: float_of(op), a: Num::Int(x), b: Num::Float(y) })
                },
                (ValueModel::Float(x), ValueModel::Int(y)) => if op == IntOp::Div && y == 0 {
                    (u, Seq::empty(), Err(VMErrorModel::DivisionByZero))
                } else {
                    ask(u, PRequest::Arith { op: float_of(op), a: Num::Float(x), b: Num::Int(y) })
                },
                (ValueModel::Float(x), ValueModel::Float(y)) => if op == IntOp::Div && is_float_zero(y) {
                    (u, Seq::empty(), Err(VMErrorModel::DivisionByZero))
                } else {
                    ask(u, PRequest::Arith { op: float_of(op), a: Num::Float(x), b: Num::Float(y) })
                },
                _ => (u, Seq::empty(), Err(mismatch2("two numbers (int or float)"@, name, a, b))),
            },
        },
    }
}

/// A value instruction of the stack machine (see [`value_step`]) run on
/// the process's stack.
pub open spec fn pvalue(p: PModel, ins: OpCodeModel) -> PStep {
    let s = MState { stack: p.stack, ip: p.ip, ..initial_state() };
    match value_step(s, ins) {
        Ok((t, e)) => match e {
            MEffect::Done => (adv(PModel { stack: t.stack, ..p }), Seq::empty(), Ok(PRequest::Continue)),
            MEffect::Print(v) => (adv(PModel { stack: t.stack, ..p }), Seq::empty(), Ok(PRequest::Print(v))),
            MEffect::Arith { op, a, b } => ask(PModel { stack: t.stack, ..p }, PRequest::Arith { op, a, b }),
            MEffect::Test { test, a, b } => ask(PModel { stack: t.stack, ..p }, PRequest::Test { test, a, b }),
            _ => ask(PModel { stack: t.stack, ..p }, PRequest::DivideOverflow),
        },
        Err((t, e)) => (PModel { stack: t.stack, ..p }, Seq::empty(), Err(e)),
    }
}

/// What executing instruction `ins` does to process `p`: the process's own
/// instructions, and the stack machine's value instructions on its stack.
/// Other instructions only move the instruction pointer.
pub open spec fn pexec(p: PModel, ins: OpCodeModel) -> PStep {
    match ins {
        OpCodeModel::PushInt(n) => pushed(p, ValueModel::Int(n)),
        OpCodeModel::PushFloat(f) => pushed(p, ValueModel::Float(f)),
        OpCodeModel::PushStr(s) => pushed(p, text(s)),
        OpCodeModel::PushBool(b) => pushed(p, ValueModel::Bool(b)),
        OpCodeModel::Print => match ppop(p, "PRINT"@) {
            Err(f) => f,
            Ok((t, v)) => (adv(t), Seq::empty(), Ok(PRequest::Print(v))),
        },
        OpCodeModel::Add => parith(p, IntOp::Add, "ADD"@),
        OpCodeModel::Sub => parith(p, IntOp::Sub, "SUB"@),
        OpCodeModel::Mul => parith(p, IntOp::Mul, "MUL"@),
        OpCodeModel::Div => parith(p, IntOp::Div, "DIV"@),
        OpCodeModel::Halt => (exited(p, "normal"@), exit_notices(p, "normal"@), Ok(PRequest::Continue)),
        OpCodeModel::Spawn => match ppop(p, "SPAWN"@) {
            Err(f) => f,
            Ok((t, v)) => ask(
                t,
                PRequest::Spawn(
                    match v {
                        ValueModel::Str(s) => Some(s),
                        _ => None,
                    },
                ),
            ),
        },
        OpCodeModel::Receive => if p.mailbox.len() == 0 {
            wait(p)
        } else {
            take_message(PModel { mailbox: p.mailbox.drop_first(), waiting: false, ..p }, p.mailbox[0], false)
        },
        OpCodeModel::ReceiveMatch(pats) => match first_match(p.mailbox, pats) {
            None => wait(p),
            Some(i) => take_message(PModel { mailbox: p.mailbox.remove(i), waiting: false, ..p }, p.mailbox[i], true),
        },
        OpCodeModel::Yield => (PModel { state: ProcState::Waiting, ..adv(p) }, Seq::empty(), Ok(PRequest::Continue)),
        OpCodeModel::Send(target) => match ppop(p, "SEND"@) {
            Err(f) => f,
            Ok((t, v)) => (adv(t), seq![(target, MessageModel::Value(v))], Ok(PRequest::Continue)),
        },
        OpCodeModel::Monitor(target) => ask(
            PModel { monitors: table_put(p.monitors, monitor_ref(p.id, target), target), ..p },
            PRequest::SendChecked { to: target, msg: MessageModel::Monitor(p.id, monitor_ref(p.id, target)) },
        ),
        OpCodeModel::Demonitor(r) => match table_get(p.monitors, r) {
            Some(target) => ask(
                PModel { monitors: table_del(p.monitors, r), ..p },
                PRequest::SendChecked { to: target, msg: MessageModel::Monitor(p.id, "stop_"@ + r) },
            ),
            None => pushed(p, text("monitor_not_found"@)),
        },
        OpCodeModel::Link(target) => ask(
            PModel { links: set_add(p.links, target), ..p },
            PRequest::SendChecked { to: target, msg: MessageModel::Link(p.id) },
        ),
        OpCodeModel::Unlink(target) => ask(
            PModel { links: set_del(p.links, target), ..p },
            PRequest::SendChecked { to: target, msg: MessageModel::Unlink(p.id) },
        ),
        OpCodeModel::TrapExit => match ppop(p, "TRAP_EXIT"@) {
            Err(f) => f,
            Ok((t, v)) => match v {
                ValueModel::Bool(b) => (adv(PModel { trap_exit: b, ..t }), Seq::empty(), Ok(PRequest::Continue)),
                _ => (t, Seq::empty(), Err(VMErrorModel::TypeError("TRAP_EXIT requires boolean value"@))),
            },
        },
        OpCodeModel::Register(n) => ask(p, PRequest::Register(n)),
        OpCodeModel::Unregister(n) => ask(p, PRequest::Unregister(n)),
        OpCodeModel::Whereis(n) => ask(p, PRequest::Whereis(n)),
        OpCodeModel::SendNamed(n) => match ppop(p, "SEND_NAMED"@) {
            Err(f) => f,
            Ok((t, v)) => ask(t, PRequest::SendNamed(n, v)),
        },
        OpCodeModel::StartSupervisor => pushed(p, text("supervisor_started"@)),
        OpCodeModel::SuperviseChild(c) => pushed(p, text("supervising_"@ + c)),
        OpCodeModel::RestartChild(c) => if p.intensity is None {
            pushed(p, text("not_supervisor"@))
        } else if !p.children.contains(c) {
            pushed(p, text("child_not_found_"@ + c))
        } else {
            ask(p, PRequest::RestartWindow)
        },
        OpCodeModel::Import(path) => ask(p, PRequest::Import(path)),
        _ => if is_value_op(ins) {
            pvalue(p, ins)
        } else {
            (adv(p), Seq::empty(), Ok(PRequest::Continue))
        },
    }
}

/// One step of a process with program `prog`: past the end it exits
/// normally; out of reductions it waits; otherwise it handles the system
/// messages in its mailbox and, unless one ended it, executes the
/// instruction at its instruction pointer.
pub open spec fn pstep(p: PModel, prog: Seq<OpCodeModel>, reductions_left: bool) -> PStep {
    if p.ip >= prog.len() {
        (exited(p, "normal"@), exit_notices(p, "normal"@), Ok(PRequest::Continue))
    } else if !reductions_left {
        (PModel { state: ProcState::Waiting, ..p }, Seq::empty(), Ok(PRequest::Continue))
    } else {
        let d = drain(p, Seq::empty(), Seq::empty(), p.mailbox);
        if d.2 {
            (d.0, d.1, Ok(PRequest::Continue))
        } else {
            let e = pexec(d.0, prog[p.ip]);
            (e.0, d.1 + e.1, e.2)
        }
    }
}

/// How a checked send went: delivered, failed, or there was no way to send.
pub enum DeliveryModel {
    Delivered,
    Failed,
    NoSender,
}

/// Completes the checked send of the instruction `ins` (`MONITOR`,
/// `DEMONITOR`, `LINK`, `UNLINK`): pushes its outcome as text. A failed
/// monitor request drops the monitor and a failed link request the link.
pub open spec fn send_done(p: PModel, ins: OpCodeModel, d: DeliveryModel) -> PModel {
    match ins {
        OpCodeModel::Monitor(t) => match d {
            DeliveryModel::Delivered => adv(ppush(p, text(monitor_ref(p.id, t)))),
            DeliveryModel::Failed => adv(
                ppush(
                    PModel { monitors: table_del(p.monitors, monitor_ref(p.id, t)), ..p },
                    text("monitor_failed"@),
                ),
            ),
            DeliveryModel::NoSender => adv(ppush(p, text("monitor_failed"@))),
        },
        OpCodeModel::Demonitor(_) => adv(
            ppush(
                p,
                text(
                    if d is Delivered {
                        "demonitor_success"@
                    } else {
                        "demonitor_failed"@
                    },
                ),
            ),
        ),
        OpCodeModel::Link(t) => match d {
            DeliveryModel::Delivered => adv(ppush(p, text("linked_"@ + nat_text(t as nat)))),
            DeliveryModel::Failed => adv(ppush(PModel { links: set_del(p.links, t), ..p }, text("link_failed"@))),
            DeliveryModel::NoSender => adv(ppush(p, text("link_failed"@))),
        },
        OpCodeModel::Unlink(t) => adv(
            ppush(
                p,
                text(
                    if d is Delivered {
                        "unlinked_"@ + nat_text(t as nat)
                    } else {
                        "unlink_failed"@
                    },
                ),
            ),
        ),
        _ => adv(p),
    }
}

/// The text a registry reply is pushed as: `ok` followed by the name on
/// success, `failed` followed by the error, or `missing` when there is no
/// registry.
pub open spec fn reply_text(
    reply: Option<Result<(), Seq<char>>>,
    ok: Seq<char>,
    failed: Seq<char>,
    missing: Seq<char>,
    name: Seq<char>,
) -> Seq<char> {
    match reply {
        Some(Ok(())) => ok + name,
        Some(Err(e)) => failed + e,
        None => missing,
    }
}

/// Completes `REGISTER`, `UNREGISTER` or `SEND_NAMED` with the registry's
/// reply.
pub open spec fn registry_done(p: PModel, ins: OpCodeModel, reply: Option<Result<(), Seq<char>>>) -> PModel {
    match ins {
        OpCodeModel::Register(n) => adv(
            ppush(
                p,
                text(reply_text(reply, "registered_"@, "register_failed_"@, "register_failed_no_registry"@, n)),
            ),
        ),
        OpCodeModel::Unregister(n) => adv(
            ppush(
                p,
                text(reply_text(reply, "unregistered_"@, "unregister_failed_"@, "unregister_failed_no_registry"@, n)),
            ),
        ),
        OpCodeModel::SendNamed(n) => adv(
            ppush(p, text(reply_text(reply, "sent_to_"@, "send_failed_"@, "send_failed_no_registry"@, n))),
        ),
        _ => adv(p),
    }
}

/// Completes `RESTART_CHILD`: when the restart period has passed the count
/// starts over; a restart is allowed then or while the count is under the
/// limit, and counted.
pub open spec fn restart_done(p: PModel, ins: OpCodeModel, elapsed: bool) -> PModel {
    match ins {
        OpCodeModel::RestartChild(c) => {
            let count = if elapsed {
                0
            } else {
                p.restarts
            };
            let limit = match p.intensity {
                Some(k) => k,
                None => 0,
            };
            if elapsed || p.restarts < limit {
                adv(ppush(PModel { restarts: (count + 1) as usize, ..p }, text("restarting_"@ + c)))
            } else {
                adv(ppush(p, text("restart_limit_exceeded_"@ + c)))
            }
        },
        _ => adv(p),
    }
}

/// Whether a step executes an instruction (rather than ending the process,
/// waiting for a new slice or stopping on an exit signal).
pub open spec fn executes(p: PModel, prog: Seq<OpCodeModel>, reductions_left: bool) -> bool {
    p.ip < prog.len() && reductions_left && !drain(p, Seq::empty(), Seq::empty(), p.mailbox).2
}

/// A slice is bounded by the process's reductions: once none are left, a
/// step runs no instruction and the process gives up its turn, waiting,
/// with nothing else changed (each step that runs an instruction uses one
/// reduction: see `TinyProc::step`).
pub proof fn law_slice_bounded(p: PModel, prog: Seq<OpCodeModel>)
    requires
        p.ip < prog.len(),
    ensures
        !executes(p, prog, false),
        pstep(p, prog, false).0 == (PModel { state: ProcState::Waiting, ..p }),
        pstep(p, prog, false).1.len() == 0,
{
}

} // verus!
