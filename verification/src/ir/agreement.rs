//! How lowered code runs beside the stack code it came from: on
//! straight-line instructions the register machine keeps step with the
//! stack machine.
use vstd::prelude::*;
use crate::ir::lowering::{LowerState, lower_step, lower_prefix, pushed_const, emit, emit_fresh, drop_top};
use crate::ir::vm::{RegState, EffectModel, reg_exec, next, get_all};
use crate::ir::RegInstrModel;
use crate::vm::env::{assoc_find, lemma_find_after_set, lemma_find_after_set_other};
use crate::vm::machine::{MState, MEffect, exec_spec, step_spec, completes, initial_state};
use crate::vm::opcode::OpCodeModel;
use crate::vm::value::ValueModel;

verus! {

/// The stack machine's state `m` and the register machine's state `r` agree
/// under the lowering state `st`: every stack slot is held by the register
/// that the lowering recorded for it (a register allocated so far), the
/// stack machine is outside any call, with its global frame only, and every
/// variable of that frame has the same value in the register machine.
pub open spec fn agree(m: MState, r: RegState, st: LowerState) -> bool {
    &&& m.stack.len() == st.stack.len()
    &&& st.next_reg <= r.registers.len() <= u32::MAX
    &&& forall|i: int|
        0 <= i < st.stack.len() ==> #[trigger] st.stack[i] < st.next_reg && r.registers[st.stack[i] as int]
            == m.stack[i]
    &&& m.frames.len() == 1
    &&& forall|name: Seq<char>|
        #[trigger] assoc_find(m.frames.last(), name) matches Some(v) ==> r.variables.contains_key(name)
            && r.variables[name] == v
}

/// The straight-line instructions: constant pushes, arithmetic,
/// concatenation, logic, comparisons, list building and indexing, `PRINT`, `DUP`,
/// `STORE` and `LOAD`.
pub open spec fn straight_line(op: OpCodeModel) -> bool {
    ||| pushed_const(op) is Some
    ||| op is Add || op is Sub || op is Mul || op is Div || op is Concat || op is Index || op is MakeList
    ||| op is And || op is Or || op is Not
    ||| op is Gt || op is Lt || op is Ge || op is Le || op is Eq || op is Ne
    ||| op is Print || op is Dup || op is Store || op is Load
}

/// The two machines ask the same of the host.
pub open spec fn effects_match(e: MEffect, o: EffectModel) -> bool {
    match e {
        MEffect::Done => o == EffectModel::Done,
        MEffect::Print(v) => o == EffectModel::Print(v),
        _ => false,
    }
}

/// The stack machine with its top `k` values replaced by `v`.
pub open spec fn replace_top(m: MState, k: int, v: ValueModel) -> MState {
    MState { stack: m.stack.take(m.stack.len() - k).push(v), ..m }
}

/// Replacing the top `k` stack values by `v`, while the register machine
/// writes `v` to the next fresh register, keeps the machines in agreement.
proof fn lemma_agree_replace(m: MState, r: RegState, st: LowerState, k: int, v: ValueModel, instr: RegInstrModel)
    requires
        agree(m, r, st),
        0 <= k <= st.stack.len(),
        st.next_reg < r.registers.len(),
    ensures
        agree(
            replace_top(m, k, v),
            RegState { registers: r.registers.update(st.next_reg as int, v), ..r },
            emit_fresh(drop_top(st, k as nat), instr),
        ),
{
    let m2 = replace_top(m, k, v);
    let r2 = RegState { registers: r.registers.update(st.next_reg as int, v), ..r };
    let st2 = emit_fresh(drop_top(st, k as nat), instr);
    let n = st.stack.len() - k;
    assert forall|i: int| 0 <= i < st2.stack.len() implies #[trigger] st2.stack[i] < st2.next_reg
        && r2.registers[st2.stack[i] as int] == m2.stack[i] by {
        if i < n {
            assert(st2.stack[i] == st.stack[i]);
            assert(m2.stack[i] == m.stack[i]);
        } else {
            assert(st2.stack[i] == st.next_reg as u32);
            assert(st.next_reg as u32 as int == st.next_reg);
        }
    }
}

/// Removing the top `k` stack values, while the register machine only moves
/// on, keeps the machines in agreement.
proof fn lemma_agree_drop(m: MState, r: RegState, st: LowerState, k: int, instr: RegInstrModel)
    requires
        agree(m, r, st),
        0 <= k <= st.stack.len(),
    ensures
        agree(MState { stack: m.stack.take(m.stack.len() - k), ..m }, next(r), emit(drop_top(st, k as nat), instr)),
{
    let m2 = MState { stack: m.stack.take(m.stack.len() - k), ..m };
    let st2 = emit(drop_top(st, k as nat), instr);
    assert forall|i: int| 0 <= i < st2.stack.len() implies #[trigger] st2.stack[i] < st2.next_reg
        && next(r).registers[st2.stack[i] as int] == m2.stack[i] by {
        assert(st2.stack[i] == st.stack[i]);
        assert(m2.stack[i] == m.stack[i]);
    }
}

/// After `op`, the register instruction that the lowering emitted for it
/// has done what the stack machine did: both complete, ask the same of the
/// host, move on to their next instruction, and agree under the lowering
/// state after `op`.
pub open spec fn keeps_step(m: MState, r: RegState, st: LowerState, op: OpCodeModel, pid: Option<u64>) -> bool {
    let st2 = lower_step(st, op)->Ok_0;
    let out = reg_exec(r, st2.instrs.last(), pid);
    &&& st2.instrs == st.instrs.push(st2.instrs.last())
    &&& step_spec(m, op) is Ok
    &&& out is Ok
    &&& step_spec(m, op)->Ok_0.0.ip == m.ip + 1
    &&& out->Ok_0.0.ip == r.ip + 1
    &&& effects_match(step_spec(m, op)->Ok_0.1, out->Ok_0.1)
    &&& agree(step_spec(m, op)->Ok_0.0, out->Ok_0.0, st2)
    &&& step_spec(m, op)->Ok_0.0.handlers == m.handlers
    &&& out->Ok_0.0.halted == r.halted
    &&& out->Ok_0.0.yielded == r.yielded
    &&& out->Ok_0.0.registers.len() == r.registers.len()
}

/// What the law below asks of its inputs.
pub open spec fn step_pre(m: MState, r: RegState, st: LowerState, op: OpCodeModel) -> bool {
    &&& agree(m, r, st)
    &&& lower_step(st, op) is Ok
    &&& lower_step(st, op)->Ok_0.next_reg <= r.registers.len()
    &&& exec_spec(m, op) is Ok
    &&& completes(exec_spec(m, op)->Ok_0.1)
}

proof fn lemma_const_step(m: MState, r: RegState, st: LowerState, op: OpCodeModel, pid: Option<u64>)
    requires
        step_pre(m, r, st, op),
        pushed_const(op) is Some,
    ensures
        keeps_step(m, r, st, op, pid),
{
    let st2 = lower_step(st, op)->Ok_0;
    lemma_agree_replace(m, r, st, 0, pushed_const(op)->Some_0, st2.instrs.last());
    assert(m.stack.take(m.stack.len() - 0) == m.stack);
    assert(st.stack.subrange(0, st.stack.len() as int) =~= st.stack);
}

/// The top two stack values sit in the registers that the lowering
/// recorded for them, and popping both leaves the rest.
proof fn lemma_top_two(m: MState, r: RegState, st: LowerState)
    requires
        agree(m, r, st),
        st.stack.len() >= 2,
    ensures
        r.registers[st.stack[st.stack.len() - 2] as int] == m.stack[m.stack.len() - 2],
        r.registers[st.stack[st.stack.len() - 1] as int] == m.stack[m.stack.len() - 1],
        m.stack.drop_last().drop_last() == m.stack.take(m.stack.len() - 2),
        m.stack.drop_last().last() == m.stack[m.stack.len() - 2],
        m.stack.last() == m.stack[m.stack.len() - 1],
{
    let n = st.stack.len() as int;
    assert(st.stack[n - 2] < st.next_reg);
    assert(st.stack[n - 1] < st.next_reg);
    assert(m.stack.drop_last().drop_last() =~= m.stack.take(m.stack.len() - 2));
}

proof fn lemma_binary_step(m: MState, r: RegState, st: LowerState, op: OpCodeModel, pid: Option<u64>)
    requires
        step_pre(m, r, st, op),
        op is Add || op is Sub || op is Mul || op is Div || op is Concat || op is And || op is Or || op is Gt
            || op is Lt || op is Ge || op is Le || op is Eq || op is Ne || op is Index,
    ensures
        keeps_step(m, r, st, op, pid),
{
    let st2 = lower_step(st, op)->Ok_0;
    lemma_top_two(m, r, st);
    let v = (exec_spec(m, op)->Ok_0.0).stack.last();
    lemma_agree_replace(m, r, st, 2, v, st2.instrs.last());
}

proof fn lemma_not_step(m: MState, r: RegState, st: LowerState, op: OpCodeModel, pid: Option<u64>)
    requires
        step_pre(m, r, st, op),
        op is Not || op is Dup,
    ensures
        keeps_step(m, r, st, op, pid),
{
    let st2 = lower_step(st, op)->Ok_0;
    let n = st.stack.len() as int;
    assert(st.stack[n - 1] < st.next_reg);
    let v = (exec_spec(m, op)->Ok_0.0).stack.last();
    if op is Not {
        assert(m.stack.drop_last() =~= m.stack.take(m.stack.len() - 1));
        lemma_agree_replace(m, r, st, 1, v, st2.instrs.last());
    } else {
        assert(m.stack.take(m.stack.len() - 0) == m.stack);
        assert(st.stack.subrange(0, st.stack.len() as int) =~= st.stack);
        lemma_agree_replace(m, r, st, 0, v, st2.instrs.last());
    }
}

proof fn lemma_print_step(m: MState, r: RegState, st: LowerState, op: OpCodeModel, pid: Option<u64>)
    requires
        step_pre(m, r, st, op),
        op is Print,
    ensures
        keeps_step(m, r, st, op, pid),
{
    let st2 = lower_step(st, op)->Ok_0;
    let n = st.stack.len() as int;
    assert(st.stack[n - 1] < st.next_reg);
    assert(m.stack.drop_last() =~= m.stack.take(m.stack.len() - 1));
    lemma_agree_drop(m, r, st, 1, st2.instrs.last());
}

proof fn lemma_load_step(m: MState, r: RegState, st: LowerState, op: OpCodeModel, pid: Option<u64>)
    requires
        step_pre(m, r, st, op),
        op is Load,
    ensures
        keeps_step(m, r, st, op, pid),
{
    let st2 = lower_step(st, op)->Ok_0;
    assert(m.frames[0] == m.frames.last());
    let v = (exec_spec(m, op)->Ok_0.0).stack.last();
    assert(m.stack.take(m.stack.len() - 0) == m.stack);
    assert(st.stack.subrange(0, st.stack.len() as int) =~= st.stack);
    lemma_agree_replace(m, r, st, 0, v, st2.instrs.last());
}

proof fn lemma_store_step(m: MState, r: RegState, st: LowerState, op: OpCodeModel, pid: Option<u64>)
    requires
        step_pre(m, r, st, op),
        op is Store,
    ensures
        keeps_step(m, r, st, op, pid),
{
    let st2 = lower_step(st, op)->Ok_0;
    let name = op->Store_0;
    let n = st.stack.len() as int;
    assert(st.stack[n - 1] < st.next_reg);
    let v = m.stack.last();
    assert(m.stack.drop_last() =~= m.stack.take(m.stack.len() - 1));
    lemma_agree_drop(m, r, st, 1, st2.instrs.last());
    let t = MState { stack: m.stack.drop_last(), ..m };
    let m2 = exec_spec(m, op)->Ok_0.0;
    let r2 = reg_exec(r, st2.instrs.last(), pid)->Ok_0.0;
    assert(r2.variables == r.variables.insert(name, v));
    assert(m2.frames.last() == crate::vm::env::assoc_set(t.frames.last(), name, v));
    assert forall|k: Seq<char>| #[trigger] assoc_find(m2.frames.last(), k) is Some implies r2.variables.contains_key(k)
        && r2.variables[k] == assoc_find(m2.frames.last(), k)->Some_0 by {
        if k == name {
            lemma_find_after_set(t.frames.last(), name, v);
        } else {
            lemma_find_after_set_other(t.frames.last(), name, v, k);
        }
    }
}

/// The registers that hold the top `k` stack slots give the top `k` stack
/// values, in order.
proof fn lemma_get_slots(m: MState, r: RegState, st: LowerState, k: int, j: int)
    requires
        agree(m, r, st),
        0 <= j <= k <= st.stack.len(),
    ensures
        get_all(r, st.stack.subrange(st.stack.len() - k, st.stack.len() - k + j)) == Ok::<
            Seq<ValueModel>,
            crate::vm::errors::VMErrorModel,
        >(m.stack.subrange(m.stack.len() - k, m.stack.len() - k + j)),
    decreases j,
{
    let b = st.stack.len() - k;
    if j > 0 {
        lemma_get_slots(m, r, st, k, j - 1);
        let rs = st.stack.subrange(b, b + j);
        assert(rs.drop_last() =~= st.stack.subrange(b, b + j - 1));
        assert(rs.last() == st.stack[b + j - 1]);
        assert(st.stack[b + j - 1] < st.next_reg);
        assert(m.stack.subrange(b, b + j - 1).push(m.stack[b + j - 1]) =~= m.stack.subrange(b, b + j));
    } else {
        assert(st.stack.subrange(b, b) =~= Seq::<u32>::empty());
        assert(m.stack.subrange(b, b) =~= Seq::<ValueModel>::empty());
    }
}

proof fn lemma_make_list_step(m: MState, r: RegState, st: LowerState, op: OpCodeModel, pid: Option<u64>)
    requires
        step_pre(m, r, st, op),
        op is MakeList,
    ensures
        keeps_step(m, r, st, op, pid),
{
    let st2 = lower_step(st, op)->Ok_0;
    let k = op->MakeList_0 as int;
    let n = st.stack.len() as int;
    lemma_get_slots(m, r, st, k, k);
    assert(st.stack.subrange(n - k, n - k + k) =~= st.stack.subrange(n - k, n));
    assert(m.stack.subrange(n - k, n - k + k) =~= m.stack.skip(n - k));
    let v = ValueModel::List(m.stack.skip(n - k));
    lemma_agree_replace(m, r, st, k, v, st2.instrs.last());
}

/// On straight-line code the lowered program keeps step with the stack
/// program: when the two machines agree under the lowering state before a
/// constant push, arithmetic, concatenation, logic, comparison, `MAKE_LIST`, `INDEX`,
/// `PRINT`, `DUP`, `STORE` or `LOAD` instruction, and the stack machine completes that instruction,
/// then the lowering emits one register instruction for it, which completes
/// too, asking the same of the host; both machines move on to their next
/// instruction and agree under the lowering state after it.
pub proof fn law_lowered_step_agrees(m: MState, r: RegState, st: LowerState, op: OpCodeModel, pid: Option<u64>)
    requires
        agree(m, r, st),
        straight_line(op),
        lower_step(st, op) is Ok,
        lower_step(st, op)->Ok_0.next_reg <= r.registers.len(),
        exec_spec(m, op) is Ok,
        completes(exec_spec(m, op)->Ok_0.1),
    ensures
        keeps_step(m, r, st, op, pid),
{
    if pushed_const(op) is Some {
        lemma_const_step(m, r, st, op, pid);
    } else if op is Add || op is Sub || op is Mul || op is Div || op is Concat || op is And || op is Or || op is Gt
        || op is Lt || op is Ge || op is Le || op is Eq || op is Ne || op is Index {
        lemma_binary_step(m, r, st, op, pid);
    } else if op is Not || op is Dup {
        lemma_not_step(m, r, st, op, pid);
    } else if op is MakeList {
        lemma_make_list_step(m, r, st, op, pid);
    } else if op is Print {
        lemma_print_step(m, r, st, op, pid);
    } else if op is Load {
        lemma_load_step(m, r, st, op, pid);
    } else {
        lemma_store_step(m, r, st, op, pid);
    }
}


/// Agreement holds under another lowering state whose simulated stack is
/// empty, when the stack machine's stack is empty too.
proof fn lemma_agree_empty(m: MState, r: RegState, st: LowerState, st2: LowerState)
    requires
        agree(m, r, st),
        m.stack.len() == 0,
        st2.stack.len() == 0,
        st2.next_reg <= r.registers.len(),
    ensures
        agree(m, r, st2),
{
}

/// `JMP t` (to another instruction, with an empty stack): both machines go
/// to `t`, asking nothing of the host.
proof fn lemma_jmp_step(m: MState, r: RegState, st: LowerState, t: usize, pid: Option<u64>)
    requires
        agree(m, r, st),
        t != m.ip,
    ensures
        step_spec(m, OpCodeModel::Jmp(t)) == Ok::<(MState, MEffect), (MState, crate::vm::errors::VMErrorModel)>(
            (MState { ip: t as int, ..m }, MEffect::Done),
        ),
        lower_step(st, OpCodeModel::Jmp(t)) == Ok::<LowerState, crate::vm::errors::VMErrorModel>(
            emit(st, RegInstrModel::Jmp(t)),
        ),
        reg_exec(r, RegInstrModel::Jmp(t), pid) == Ok::<(RegState, EffectModel), crate::ir::vm::Fail>(
            (RegState { ip: t as int, ..r }, EffectModel::Done),
        ),
{
}

/// Whether `JZ` takes its jump on `v` in the stack machine.
pub open spec fn stack_jumps(v: ValueModel) -> bool {
    v == ValueModel::Int(0) || v == ValueModel::Bool(false) || v == ValueModel::Null
}

/// A value on which both machines' `JZ` decide alike: anything but a float
/// or a string.
pub open spec fn plain_test(v: ValueModel) -> bool {
    !(v is Float) && !(v is Str)
}

/// `JZ t` (to another instruction) on a value that is no float or string:
/// both machines pop the value and go to `t` or to the next instruction
/// alike, asking nothing of the host.
proof fn lemma_jz_step(m: MState, r: RegState, st: LowerState, t: usize, pid: Option<u64>)
    requires
        agree(m, r, st),
        t != m.ip,
        m.stack.len() > 0,
        plain_test(m.stack.last()),
    ensures
        ({
            let v = m.stack.last();
            let m2 = MState { stack: m.stack.drop_last(), ..m };
            let n = st.stack.len();
            &&& step_spec(m, OpCodeModel::Jz(t)) == Ok::<(MState, MEffect), (MState, crate::vm::errors::VMErrorModel)>(
                (if stack_jumps(v) { MState { ip: t as int, ..m2 } } else { MState { ip: m.ip + 1, ..m2 } }, MEffect::Done),
            )
            &&& lower_step(st, OpCodeModel::Jz(t)) == Ok::<LowerState, crate::vm::errors::VMErrorModel>(
                emit(drop_top(st, 1), RegInstrModel::Jz(st.stack[n - 1], t)),
            )
            &&& reg_exec(r, RegInstrModel::Jz(st.stack[n - 1], t), pid) == Ok::<(RegState, EffectModel), crate::ir::vm::Fail>(
                (if stack_jumps(v) { RegState { ip: t as int, ..r } } else { RegState { ip: r.ip + 1, ..r } }, EffectModel::Done),
            )
            &&& agree(m2, r, drop_top(st, 1))
        }),
{
    let n = st.stack.len() as int;
    assert(st.stack[n - 1] < st.next_reg);
    assert(m.stack.drop_last() =~= m.stack.take(m.stack.len() - 1));
    lemma_agree_drop(m, r, st, 1, RegInstrModel::Nop);
    let m2 = MState { stack: m.stack.drop_last(), ..m };
    assert forall|i: int| 0 <= i < drop_top(st, 1).stack.len() implies #[trigger] drop_top(st, 1).stack[i]
        < drop_top(st, 1).next_reg && r.registers[drop_top(st, 1).stack[i] as int] == m2.stack[i] by {
        assert(drop_top(st, 1).stack[i] == st.stack[i]);
        assert(m2.stack[i] == m.stack[i]);
    }
}

/// The printed values `p` after a step that asked `e` of the host.
pub open spec fn after_print(p: Seq<ValueModel>, e: MEffect) -> Seq<ValueModel> {
    match e {
        MEffect::Print(v) => p.push(v),
        _ => p,
    }
}

/// The stack program `ops` run from `m` for `k` steps, each one on the
/// instruction at the instruction pointer, which is not `HALT`, and each
/// completing, no `JZ` testing a float or a string: the state reached and
/// the values printed on the way, or `None` when a step fails, waits for
/// the host, tests such a value, or finds no instruction to run.
pub open spec fn stack_run(ops: Seq<OpCodeModel>, m: MState, k: nat) -> Option<(MState, Seq<ValueModel>)>
    decreases k,
{
    if k == 0 {
        Some((m, Seq::empty()))
    } else {
        match stack_run(ops, m, (k - 1) as nat) {
            None => None,
            Some((s, p)) => if 0 <= s.ip < ops.len() && !(ops[s.ip] is Halt) && (ops[s.ip] is Jz && s.stack.len()
                > 0 ==> plain_test(s.stack.last())) {
                match step_spec(s, ops[s.ip]) {
                    Ok((t, e)) => if completes(e) {
                        Some((t, after_print(p, e)))
                    } else {
                        None
                    },
                    Err(_) => None,
                }
            } else {
                None
            },
        }
    }
}

/// The printed values `p` after a register step that asked `o` of the host.
pub open spec fn after_reg_print(p: Seq<ValueModel>, o: EffectModel) -> Seq<ValueModel> {
    match o {
        EffectModel::Print(v) => p.push(v),
        _ => p,
    }
}

/// The register program `instrs` run from `r` for `k` steps by a machine
/// that is no process, each step completing: the state reached and the
/// values printed, or `None` when a step fails, waits for the host, or the
/// machine cannot step.
pub open spec fn reg_run(instrs: Seq<RegInstrModel>, r: RegState, k: nat) -> Option<(RegState, Seq<ValueModel>)>
    decreases k,
{
    if k == 0 {
        Some((r, Seq::empty()))
    } else {
        match reg_run(instrs, r, (k - 1) as nat) {
            None => None,
            Some((s, p)) => if !s.halted && !s.yielded && 0 <= s.ip < instrs.len() {
                match reg_exec(s, instrs[s.ip], None) {
                    Ok((t, o)) => if o is Done || o is Print {
                        Some((t, after_reg_print(p, o)))
                    } else {
                        None
                    },
                    Err(_) => None,
                }
            } else {
                None
            },
        }
    }
}

/// The state of a fresh register machine with `n` registers.
pub open spec fn fresh_registers(n: nat) -> RegState {
    RegState {
        registers: Seq::new(n, |i: int| ValueModel::Null),
        variables: Map::empty(),
        ip: 0,
        halted: false,
        yielded: false,
        mailbox: Seq::empty(),
    }
}

/// A lowering step emits exactly one instruction and allocates at most one
/// register.
proof fn lemma_lower_step_shape(st: LowerState, op: OpCodeModel)
    requires
        lower_step(st, op) is Ok,
    ensures
        lower_step(st, op)->Ok_0.instrs == st.instrs.push(lower_step(st, op)->Ok_0.instrs.last()),
        st.next_reg <= lower_step(st, op)->Ok_0.next_reg,
{
}

/// Lowering a prefix of a program gives the prefix of its lowering.
proof fn lemma_lower_prefix_take(ops: Seq<OpCodeModel>, j: int)
    requires
        lower_prefix(ops) is Ok,
        0 <= j <= ops.len(),
    ensures
        lower_prefix(ops.take(j)) is Ok,
        lower_prefix(ops.take(j))->Ok_0.instrs == lower_prefix(ops)->Ok_0.instrs.take(j),
        lower_prefix(ops.take(j))->Ok_0.next_reg <= lower_prefix(ops)->Ok_0.next_reg,
    decreases ops.len(),
{
    crate::ir::lowering::law_lower_shape(ops);
    if j == ops.len() {
        assert(ops.take(j) =~= ops);
        assert(lower_prefix(ops)->Ok_0.instrs.take(j) =~= lower_prefix(ops)->Ok_0.instrs);
    } else {
        let st = lower_prefix(ops.drop_last())->Ok_0;
        lemma_lower_step_shape(st, ops.last());
        lemma_lower_prefix_take(ops.drop_last(), j);
        crate::ir::lowering::law_lower_shape(ops.drop_last());
        assert(ops.drop_last().take(j) =~= ops.take(j));
        assert(st.instrs.take(j) =~= lower_prefix(ops)->Ok_0.instrs.take(j));
    }
}

/// Without a `TRY` block, a straight-line instruction that the stack
/// machine completes in a step was executed without failure.
proof fn lemma_step_without_handlers(m: MState, op: OpCodeModel)
    requires
        m.handlers.len() == 0,
        straight_line(op),
        step_spec(m, op) is Ok,
        completes(step_spec(m, op)->Ok_0.1),
    ensures
        exec_spec(m, op) is Ok,
        completes(exec_spec(m, op)->Ok_0.1),
{
}

/// Whether the instruction at `i` is one the law below covers.
pub open spec fn covered(op: OpCodeModel) -> bool {
    straight_line(op) || op is Halt || op is Jmp || op is Jz
}

/// The jump at `i`, if any, goes to another instruction of the program,
/// and the simulated stack is empty where it goes and when it leaves (a
/// `JZ` leaves it after popping its test).
pub open spec fn jump_ok(ops: Seq<OpCodeModel>, i: int) -> bool {
    match ops[i] {
        OpCodeModel::Jmp(t) => t != i && t <= ops.len() && lower_prefix(ops.take(i))->Ok_0.stack.len() == 0
            && lower_prefix(ops.take(t as int))->Ok_0.stack.len() == 0,
        OpCodeModel::Jz(t) => t != i && t <= ops.len() && lower_prefix(ops.take(i))->Ok_0.stack.len() == 1
            && lower_prefix(ops.take(t as int))->Ok_0.stack.len() == 0,
        _ => true,
    }
}

/// What the law below asks of a program.
pub open spec fn lowerable_program(ops: Seq<OpCodeModel>) -> bool {
    &&& forall|i: int| 0 <= i < ops.len() ==> covered(#[trigger] ops[i])
    &&& forall|i: int| 0 <= i < ops.len() ==> #[trigger] jump_ok(ops, i)
    &&& lower_prefix(ops)->Ok_0.next_reg <= u32::MAX
}

/// Step by step, the two runs keep the agreement that
/// `law_lowered_step_agrees` keeps for one step, and jumps keep it too.
proof fn lemma_runs_agree(ops: Seq<OpCodeModel>, k: nat)
    requires
        lowerable_program(ops),
        stack_run(ops, initial_state(), k) is Some,
    ensures
        0 <= stack_run(ops, initial_state(), k)->Some_0.0.ip <= ops.len(),
        stack_run(ops, initial_state(), k)->Some_0.0.handlers.len() == 0,
        reg_run(lower_prefix(ops)->Ok_0.instrs, fresh_registers(lower_prefix(ops)->Ok_0.next_reg), k) is Some,
        ({
            let full = lower_prefix(ops)->Ok_0;
            let ms = stack_run(ops, initial_state(), k)->Some_0;
            let rs = reg_run(full.instrs, fresh_registers(full.next_reg), k)->Some_0;
            &&& rs.0.ip == ms.0.ip
            &&& !rs.0.halted
            &&& !rs.0.yielded
            &&& rs.0.registers.len() == full.next_reg
            &&& rs.1 == ms.1
            &&& agree(ms.0, rs.0, lower_prefix(ops.take(ms.0.ip))->Ok_0)
        }),
    decreases k,
{
    crate::ir::lowering::law_lowering_always_succeeds(ops);
    let full = lower_prefix(ops)->Ok_0;
    crate::ir::lowering::law_lower_shape(ops);
    if k == 0 {
        assert(ops.take(0) =~= Seq::<OpCodeModel>::empty());
        let m = initial_state();
        assert(m.frames.last() == Seq::<(Seq<char>, ValueModel)>::empty());
        assert forall|name: Seq<char>| #[trigger] assoc_find(m.frames.last(), name) is None by {}
    } else {
        lemma_runs_agree(ops, (k - 1) as nat);
        let ms = stack_run(ops, initial_state(), (k - 1) as nat)->Some_0;
        let rs = reg_run(full.instrs, fresh_registers(full.next_reg), (k - 1) as nat)->Some_0;
        let m = ms.0;
        let r = rs.0;
        let i = m.ip;
        let op = ops[i];
        assert(covered(op));
        assert(jump_ok(ops, i));
        lemma_lower_prefix_take(ops, i);
        lemma_lower_prefix_take(ops, i + 1);
        assert(ops.take(i + 1).drop_last() =~= ops.take(i));
        let st = lower_prefix(ops.take(i))->Ok_0;
        let st2 = lower_prefix(ops.take(i + 1))->Ok_0;
        assert(st2 == lower_step(st, op)->Ok_0);
        crate::ir::lowering::law_lower_shape(ops.take(i + 1));
        assert(st2.instrs.len() == i + 1);
        assert(st2.instrs.last() == full.instrs[i]);
        if straight_line(op) {
            lemma_step_without_handlers(m, op);
            law_lowered_step_agrees(m, r, st, op, None);
        } else if op is Jmp {
            let t = op->Jmp_0;
            lemma_jmp_step(m, r, st, t, None);
            lemma_lower_prefix_take(ops, t as int);
            lemma_agree_empty(m, r, st, lower_prefix(ops.take(t as int))->Ok_0);
        } else {
            let t = op->Jz_0;
            assert(m.stack.len() == 1);
            lemma_jz_step(m, r, st, t, None);
            lemma_lower_prefix_take(ops, t as int);
            let m2 = MState { stack: m.stack.drop_last(), ..m };
            if stack_jumps(m.stack.last()) {
                lemma_agree_empty(m2, r, drop_top(st, 1), lower_prefix(ops.take(t as int))->Ok_0);
            } else {
                lemma_agree_empty(m2, r, drop_top(st, 1), st2);
            }
        }
    }
}

/// `HALT` lowers to `HALT`, at the same position.
proof fn lemma_halt_lowered(ops: Seq<OpCodeModel>, k: int)
    requires
        lower_prefix(ops) is Ok,
        0 <= k < ops.len(),
        ops[k] is Halt,
    ensures
        lower_prefix(ops)->Ok_0.instrs[k] is Halt,
{
    let full = lower_prefix(ops)->Ok_0;
    crate::ir::lowering::law_lower_shape(ops);
    assert(ops[k] == OpCodeModel::Halt);
    lemma_lower_prefix_take(ops, k);
    lemma_lower_prefix_take(ops, k + 1);
    crate::ir::lowering::law_lower_shape(ops.take(k + 1));
    assert(ops.take(k + 1).drop_last() =~= ops.take(k));
    let st = lower_prefix(ops.take(k))->Ok_0;
    let st3 = lower_prefix(ops.take(k + 1))->Ok_0;
    assert(st3 == lower_step(st, ops[k])->Ok_0);
    assert(st3.instrs == full.instrs.take(k + 1));
    assert(st3.instrs.last() == st3.instrs[k]);
    assert(lower_step(st, OpCodeModel::Halt) == Ok::<LowerState, crate::vm::errors::VMErrorModel>(emit(st, RegInstrModel::Halt)));
    assert(st3.instrs.last() == RegInstrModel::Halt);
    assert(full.instrs.take(k + 1)[k] == full.instrs[k]);
}

/// A program and its lowering print the same. Take a program made of
/// constant pushes, arithmetic, concatenation, logic, comparison,
/// `MAKE_LIST`, `INDEX`, `PRINT`, `DUP`, `STORE`, `LOAD`, `JMP`, `JZ` and
/// `HALT` instructions, whose jumps
/// go to other instructions with the simulated stack empty there and when
/// they leave. Whenever the stack machine, started afresh, runs `k` steps
/// that all complete, no `JZ` testing a float or a string, the register
/// machine of the lowered block, started afresh, runs `k` steps that all
/// complete too, has printed the same values, and stands at the same
/// instruction; where the stack machine stands at `HALT`, so does the
/// register machine.
pub proof fn law_lowered_program_prints_the_same(ops: Seq<OpCodeModel>, k: nat)
    requires
        lowerable_program(ops),
        stack_run(ops, initial_state(), k) is Some,
    ensures
        ({
            let full = lower_prefix(ops)->Ok_0;
            let ms = stack_run(ops, initial_state(), k)->Some_0;
            let out = reg_run(full.instrs, fresh_registers(full.next_reg), k);
            &&& out is Some
            &&& out->Some_0.1 == ms.1
            &&& out->Some_0.0.ip == ms.0.ip
            &&& (0 <= ms.0.ip < ops.len() && ops[ms.0.ip] is Halt ==> full.instrs[ms.0.ip] is Halt)
        }),
{
    crate::ir::lowering::law_lowering_always_succeeds(ops);
    lemma_runs_agree(ops, k);
    let ms = stack_run(ops, initial_state(), k)->Some_0;
    if 0 <= ms.0.ip < ops.len() && ops[ms.0.ip] is Halt {
        lemma_halt_lowered(ops, ms.0.ip);
    }
}
} // verus!
