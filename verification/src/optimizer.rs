//! A peephole and reachability optimizer for stack-machine programs.
use vstd::prelude::*;
use crate::vm::opcode::{OpCode, OpCodeModel, opcode_model, program_model};
use crate::vm::value::{FloatOp, is_float_zero, float_is_zero};
use crate::vm::machine::{exec_spec, pop2, push, MEffect, MState};
use crate::vm::value::ValueModel;
use crate::vm::errors::VMErrorModel;

verus! {

/// Which passes the optimizer runs.
#[derive(Debug, PartialEq)]
pub struct OptimizationOptions {
    pub dead_code_elimination: bool,
    pub constant_folding: bool,
    pub tail_call_optimization: bool,
    pub memory_layout_optimization: bool,
}

impl OptimizationOptions {
    /// All passes enabled.
    pub fn default() -> (o: OptimizationOptions)
        ensures
            o.dead_code_elimination && o.constant_folding && o.tail_call_optimization
                && o.memory_layout_optimization,
    {
        OptimizationOptions {
            dead_code_elimination: true,
            constant_folding: true,
            tail_call_optimization: true,
            memory_layout_optimization: true,
        }
    }
}

/// What the passes of one optimization run changed.
#[derive(Debug, PartialEq)]
pub struct OptimizationStats {
    pub dead_instructions_removed: usize,
    pub constants_folded: usize,
    pub tail_calls_optimized: usize,
    pub memory_operations_optimized: usize,
}

impl OptimizationStats {
    /// All counters zero.
    pub fn default() -> (s: OptimizationStats)
        ensures
            s.dead_instructions_removed == 0 && s.constants_folded == 0 && s.tail_calls_optimized == 0
                && s.memory_operations_optimized == 0,
    {
        OptimizationStats {
            dead_instructions_removed: 0,
            constants_folded: 0,
            tail_calls_optimized: 0,
            memory_operations_optimized: 0,
        }
    }

    /// A copy of the counters.
    pub fn copy(&self) -> (s: OptimizationStats)
        ensures
            s == *self,
    {
        OptimizationStats {
            dead_instructions_removed: self.dead_instructions_removed,
            constants_folded: self.constants_folded,
            tail_calls_optimized: self.tail_calls_optimized,
            memory_operations_optimized: self.memory_operations_optimized,
        }
    }
}

// ---------------------------------------------------------------------------
// Constant folding

/// What constant folding does at one position of a program.
pub enum Fold {
    /// The instructions are replaced by a single constant instruction.
    Const(OpCodeModel),
    /// Two float constants and a float operation: the host computes the
    /// constant.
    Float(FloatOp, u64, u64),
    /// Integer constants whose sum or difference does not fit in an `i64`.
    Overflow,
}

/// The instruction pushing the truth value that a comparison pushes: 1 or 0.
pub open spec fn bool_op(b: bool) -> OpCodeModel {
    if b {
        OpCodeModel::PushInt(1)
    } else {
        OpCodeModel::PushInt(0)
    }
}

/// The fold at position `i`, with the number of instructions it replaces.
pub open spec fn fold_at(s: Seq<OpCodeModel>, i: int) -> Option<(Fold, int)> {
    if i + 1 < s.len() && s[i] is True && s[i + 1] is Not {
        Some((Fold::Const(OpCodeModel::False), 2))
    } else if i + 1 < s.len() && s[i] is False && s[i + 1] is Not {
        Some((Fold::Const(OpCodeModel::True), 2))
    } else if i + 2 >= s.len() {
        None
    } else {
        match (s[i], s[i + 1], s[i + 2]) {
            (OpCodeModel::PushInt(a), OpCodeModel::PushInt(b), OpCodeModel::Add) => if i64::MIN <= a + b
                <= i64::MAX {
                Some((Fold::Const(OpCodeModel::PushInt((a + b) as i64)), 3))
            } else {
                Some((Fold::Overflow, 3))
            },
            (OpCodeModel::PushInt(a), OpCodeModel::PushInt(b), OpCodeModel::Sub) => if i64::MIN <= a - b
                <= i64::MAX {
                Some((Fold::Const(OpCodeModel::PushInt((a - b) as i64)), 3))
            } else {
                Some((Fold::Overflow, 3))
            },
            (OpCodeModel::PushFloat(a), OpCodeModel::PushFloat(b), OpCodeModel::AddF) => Some(
                (Fold::Float(FloatOp::Add, a, b), 3),
            ),
            (OpCodeModel::PushFloat(a), OpCodeModel::PushFloat(b), OpCodeModel::SubF) => Some(
                (Fold::Float(FloatOp::Sub, a, b), 3),
            ),
            (OpCodeModel::PushFloat(a), OpCodeModel::PushFloat(b), OpCodeModel::MulF) => Some(
                (Fold::Float(FloatOp::Mul, a, b), 3),
            ),
            (OpCodeModel::PushFloat(a), OpCodeModel::PushFloat(b), OpCodeModel::DivF) => if !is_float_zero(b) {
                Some((Fold::Float(FloatOp::Div, a, b), 3))
            } else {
                None
            },
            (OpCodeModel::PushInt(a), OpCodeModel::PushInt(b), OpCodeModel::Eq) => Some(
                (Fold::Const(bool_op(a == b)), 3),
            ),
            (OpCodeModel::PushInt(a), OpCodeModel::PushInt(b), OpCodeModel::Ne) => Some(
                (Fold::Const(bool_op(a != b)), 3),
            ),
            (OpCodeModel::PushInt(a), OpCodeModel::PushInt(b), OpCodeModel::Lt) => Some(
                (Fold::Const(bool_op(a < b)), 3),
            ),
            (OpCodeModel::PushInt(a), OpCodeModel::PushInt(b), OpCodeModel::Gt) => Some(
                (Fold::Const(bool_op(a > b)), 3),
            ),
            _ => None,
        }
    }
}

/// Whether the folding scan from position `i` on meets no integer overflow.
pub open spec fn fold_ok(s: Seq<OpCodeModel>, i: int) -> bool
    decreases s.len() - i,
{
    if i < 0 || i >= s.len() {
        true
    } else {
        match fold_at(s, i) {
            Some((Fold::Overflow, _)) => false,
            Some((_, n)) => fold_ok(s, i + n),
            None => fold_ok(s, i + 1),
        }
    }
}

/// `out` is what constant folding makes of `s` from position `i` on, given
/// that the host's float operation `f` computed each folded float constant.
pub open spec fn folds_from<F: Fn(FloatOp, u64, u64) -> u64>(
    s: Seq<OpCodeModel>,
    i: int,
    out: Seq<OpCodeModel>,
    f: F,
) -> bool
    decreases s.len() - i,
{
    if i < 0 || i >= s.len() {
        out.len() == 0
    } else {
        match fold_at(s, i) {
            Some((Fold::Const(ins), n)) => out.len() > 0 && out[0] == ins && folds_from(
                s,
                i + n,
                out.drop_first(),
                f,
            ),
            Some((Fold::Float(op, a, b), n)) => out.len() > 0 && (exists|r: u64|
                out[0] == OpCodeModel::PushFloat(r) && #[trigger] call_ensures(f, (op, a, b), r)) && folds_from(
                s,
                i + n,
                out.drop_first(),
                f,
            ),
            Some((Fold::Overflow, _)) => false,
            None => out.len() > 0 && out[0] == s[i] && folds_from(s, i + 1, out.drop_first(), f),
        }
    }
}

/// How many instructions the folding scan from position `i` removes.
pub open spec fn folded_count(s: Seq<OpCodeModel>, i: int) -> nat
    decreases s.len() - i,
{
    if i < 0 || i >= s.len() {
        0
    } else {
        match fold_at(s, i) {
            Some((_, n)) => if n >= 1 {
                (n - 1) as nat + folded_count(s, i + n)
            } else {
                0
            },
            None => folded_count(s, i + 1),
        }
    }
}


/// Whether the host's float operation accepts every input.
pub open spec fn float_op_total<F: Fn(FloatOp, u64, u64) -> u64>(f: F) -> bool {
    forall|op: FloatOp, a: u64, b: u64| #[trigger] call_requires(f, (op, a, b))
}

/// The fold at position `start`: the constant instruction and how many
/// instructions it replaces.
pub fn try_fold_constants<F: Fn(FloatOp, u64, u64) -> u64>(
    instructions: &Vec<OpCode>,
    start: usize,
    float_op: &F,
) -> (r: Option<(OpCode, usize)>)
    requires
        start < instructions@.len(),
        float_op_total(*float_op),
        !(fold_at(program_model(instructions@), start as int) matches Some((Fold::Overflow, _))),
    ensures
        match fold_at(program_model(instructions@), start as int) {
            Some((Fold::Const(ins), n)) => r is Some && opcode_model(r->Some_0.0) == ins && r->Some_0.1 == n,
            Some((Fold::Float(op, a, b), n)) => r is Some && r->Some_0.1 == n && r->Some_0.0 is PushFloat
                && call_ensures(*float_op, (op, a, b), r->Some_0.0->PushFloat_0),
            Some((Fold::Overflow, _)) => false,
            None => r is None,
        },
{
    let ghost s = program_model(instructions@);
    let len = instructions.len();
    if start + 1 < len {
        assert(s[start as int] == opcode_model(instructions@[start as int]));
        assert(s[start + 1] == opcode_model(instructions@[start + 1]));
        match (&instructions[start], &instructions[start + 1]) {
            (OpCode::True, OpCode::Not) => {
                return Some((OpCode::False, 2));
            },
            (OpCode::False, OpCode::Not) => {
                return Some((OpCode::True, 2));
            },
            _ => {},
        }
    }
    if len - start <= 2 {
        return None;
    }
    assert(s[start as int] == opcode_model(instructions@[start as int]));
    assert(s[start + 1] == opcode_model(instructions@[start + 1]));
    assert(s[start + 2] == opcode_model(instructions@[start + 2]));
    match (&instructions[start], &instructions[start + 1], &instructions[start + 2]) {
        (OpCode::PushInt(a), OpCode::PushInt(b), OpCode::Add) => Some((OpCode::PushInt(*a + *b), 3)),
        (OpCode::PushInt(a), OpCode::PushInt(b), OpCode::Sub) => Some((OpCode::PushInt(*a - *b), 3)),
        (OpCode::PushFloat(a), OpCode::PushFloat(b), OpCode::AddF) => {
            Some((OpCode::PushFloat(float_op(FloatOp::Add, *a, *b)), 3))
        },
        (OpCode::PushFloat(a), OpCode::PushFloat(b), OpCode::SubF) => {
            Some((OpCode::PushFloat(float_op(FloatOp::Sub, *a, *b)), 3))
        },
        (OpCode::PushFloat(a), OpCode::PushFloat(b), OpCode::MulF) => {
            Some((OpCode::PushFloat(float_op(FloatOp::Mul, *a, *b)), 3))
        },
        (OpCode::PushFloat(a), OpCode::PushFloat(b), OpCode::DivF) => {
            if !float_is_zero(*b) {
                Some((OpCode::PushFloat(float_op(FloatOp::Div, *a, *b)), 3))
            } else {
                None
            }
        },
        (OpCode::PushInt(a), OpCode::PushInt(b), OpCode::Eq) => Some(
            (
                if *a == *b {
                    OpCode::PushInt(1)
                } else {
                    OpCode::PushInt(0)
                },
                3,
            ),
        ),
        (OpCode::PushInt(a), OpCode::PushInt(b), OpCode::Ne) => Some(
            (
                if *a != *b {
                    OpCode::PushInt(1)
                } else {
                    OpCode::PushInt(0)
                },
                3,
            ),
        ),
        (OpCode::PushInt(a), OpCode::PushInt(b), OpCode::Lt) => Some(
            (
                if *a < *b {
                    OpCode::PushInt(1)
                } else {
                    OpCode::PushInt(0)
                },
                3,
            ),
        ),
        (OpCode::PushInt(a), OpCode::PushInt(b), OpCode::Gt) => Some(
            (
                if *a > *b {
                    OpCode::PushInt(1)
                } else {
                    OpCode::PushInt(0)
                },
                3,
            ),
        ),
        _ => None,
    }
}


/// A peephole and reachability optimizer.
pub struct Optimizer {
    pub options: OptimizationOptions,
    pub stats: OptimizationStats,
}

impl Optimizer {
    /// An optimizer with the given passes and zero counters.
    pub fn new(options: OptimizationOptions) -> (o: Optimizer)
        ensures
            o.options == options,
            o.stats.dead_instructions_removed == 0,
            o.stats.constants_folded == 0,
            o.stats.tail_calls_optimized == 0,
            o.stats.memory_operations_optimized == 0,
    {
        Optimizer { options, stats: OptimizationStats::default() }
    }

    /// The counters of the last run.
    pub fn get_stats(&self) -> (s: &OptimizationStats)
        ensures
            *s == self.stats,
    {
        &self.stats
    }

    /// Replaces constant patterns by their values, scanning left to right.
    pub fn constant_folding_pass<F: Fn(FloatOp, u64, u64) -> u64>(
        &mut self,
        instructions: Vec<OpCode>,
        float_op: &F,
    ) -> (r: Vec<OpCode>)
        requires
            fold_ok(program_model(instructions@), 0),
            float_op_total(*float_op),
            old(self).stats.constants_folded + instructions@.len() <= usize::MAX,
        ensures
            folds_from(program_model(instructions@), 0, program_model(r@), *float_op),
            final(self).stats.constants_folded == old(self).stats.constants_folded + folded_count(
                program_model(instructions@),
                0,
            ),
            final(self).stats.dead_instructions_removed == old(self).stats.dead_instructions_removed,
            final(self).stats.tail_calls_optimized == old(self).stats.tail_calls_optimized,
            final(self).stats.memory_operations_optimized == old(self).stats.memory_operations_optimized,
            final(self).options == old(self).options,
    {
        let ghost s = program_model(instructions@);
        let mut optimized: Vec<OpCode> = Vec::new();
        let mut i: usize = 0;
        proof {
            lemma_folded_count_bound(s, 0);
        }
        while i < instructions.len()
            invariant
                s == program_model(instructions@),
                i <= instructions@.len(),
                fold_ok(s, i as int),
                float_op_total(*float_op),
                forall|tail: Seq<OpCodeModel>|
                    folds_from(s, i as int, tail, *float_op) ==> #[trigger] folds_from(
                        s,
                        0,
                        program_model(optimized@) + tail,
                        *float_op,
                    ),
                self.stats.constants_folded + folded_count(s, i as int) == old(self).stats.constants_folded
                    + folded_count(s, 0),
                folded_count(s, i as int) <= instructions@.len() - i,
                folded_count(s, 0) <= instructions@.len(),
                old(self).stats.constants_folded + instructions@.len() <= usize::MAX,
                self.stats.dead_instructions_removed == old(self).stats.dead_instructions_removed,
                self.stats.tail_calls_optimized == old(self).stats.tail_calls_optimized,
                self.stats.memory_operations_optimized == old(self).stats.memory_operations_optimized,
                self.options == old(self).options,
            decreases instructions.len() - i,
        {
            let ghost before = program_model(optimized@);
            proof {
                lemma_folded_count_bound(s, i as int);
            }
            match try_fold_constants(&instructions, i, float_op) {
                Some((folded, consumed)) => {
                    optimized.push(folded);
                    assert(folded_count(s, i as int) == (consumed - 1) + folded_count(s, i + consumed));
                    self.stats.constants_folded = self.stats.constants_folded + (consumed - 1);
                    proof {
                        assert(program_model(optimized@) =~= before.push(opcode_model(folded)));
                        assert forall|tail: Seq<OpCodeModel>|
                            folds_from(s, i + consumed, tail, *float_op) implies #[trigger] folds_from(
                                s,
                                0,
                                program_model(optimized@) + tail,
                                *float_op,
                            ) by {
                            let t2 = seq![opcode_model(folded)] + tail;
                            assert(t2.drop_first() =~= tail);
                            assert(folds_from(s, i as int, t2, *float_op));
                            assert(before + t2 =~= program_model(optimized@) + tail);
                        }
                    }
                    i = i + consumed;
                    proof {
                        lemma_folded_count_bound(s, i as int);
                    }
                },
                None => {
                    let c = instructions[i].copy();
                    optimized.push(c);
                    proof {
                        assert(program_model(optimized@) =~= before.push(opcode_model(c)));
                        assert forall|tail: Seq<OpCodeModel>|
                            folds_from(s, i + 1, tail, *float_op) implies #[trigger] folds_from(
                                s,
                                0,
                                program_model(optimized@) + tail,
                                *float_op,
                            ) by {
                            let t2 = seq![opcode_model(c)] + tail;
                            assert(t2.drop_first() =~= tail);
                            assert(folds_from(s, i as int, t2, *float_op));
                            assert(before + t2 =~= program_model(optimized@) + tail);
                        }
                    }
                    i = i + 1;
                    proof {
                        lemma_folded_count_bound(s, i as int);
                    }
                },
            }
        }
        proof {
            assert(folds_from(s, i as int, Seq::empty(), *float_op));
            assert(program_model(optimized@) + Seq::<OpCodeModel>::empty() =~= program_model(optimized@));
        }
        optimized
    }
}

proof fn lemma_folded_count_bound(s: Seq<OpCodeModel>, i: int)
    requires
        0 <= i <= s.len(),
    ensures
        folded_count(s, i) <= s.len() - i,
    decreases s.len() - i,
{
    if i < s.len() {
        match fold_at(s, i) {
            Some((_, n)) => {
                lemma_folded_count_bound(s, i + n);
            },
            None => {
                lemma_folded_count_bound(s, i + 1);
            },
        }
    }
}


// ---------------------------------------------------------------------------
// Dead code elimination

/// The instruction addresses that control can pass to from `pc`: jump
/// targets, call targets, catch addresses, and the next instruction unless
/// `pc` returns or halts.
pub open spec fn successors(s: Seq<OpCodeModel>, pc: int) -> Seq<int> {
    match s[pc] {
        OpCodeModel::Jmp(t) => seq![t as int],
        OpCodeModel::Jz(t) => seq![t as int, pc + 1],
        OpCodeModel::Call { addr, .. } => seq![addr as int, pc + 1],
        OpCodeModel::Try { catch_addr } => seq![catch_addr as int, pc + 1],
        OpCodeModel::Ret => Seq::empty(),
        OpCodeModel::Halt => Seq::empty(),
        _ => seq![pc + 1],
    }
}

/// `b` is among the control successors of `a`.
#[verifier::opaque]
pub open spec fn edge(s: Seq<OpCodeModel>, a: int, b: int) -> bool {
    successors(s, a).contains(b)
}

/// Control can pass directly from instruction `a` to instruction `b`.
pub open spec fn step_to(s: Seq<OpCodeModel>, a: int, b: int) -> bool {
    0 <= a < s.len() && 0 <= b < s.len() && edge(s, a, b)
}

/// `p` is a path of control from the entry: it starts at instruction 0
/// and each step follows a control edge.
pub open spec fn is_path(s: Seq<OpCodeModel>, p: Seq<int>) -> bool {
    &&& p.len() > 0
    &&& p[0] == 0
    &&& 0 < s.len()
    &&& forall|t: int| 0 <= t < p.len() - 1 ==> step_to(s, #[trigger] p[t], p[t + 1])
}

/// Instruction `i` is reachable from the entry, instruction 0.
pub open spec fn reachable(s: Seq<OpCodeModel>, i: int) -> bool {
    exists|p: Seq<int>| #[trigger] is_path(s, p) && p.last() == i
}

/// The number of reachable instructions among the first `n`.
pub open spec fn reachable_count(s: Seq<OpCodeModel>, n: int) -> nat
    decreases n,
{
    if n <= 0 {
        0
    } else if reachable(s, n - 1) {
        reachable_count(s, n - 1) + 1
    } else {
        reachable_count(s, n - 1)
    }
}

/// Where code address `t` stands once the unreachable instructions are
/// gone: after the reachable instructions before it. An address past the
/// end of the program stays as it is.
pub open spec fn kept_addr(s: Seq<OpCodeModel>, t: usize) -> usize {
    if t <= s.len() {
        reachable_count(s, t as int) as usize
    } else {
        t
    }
}

/// An instruction with its code addresses (jump, call, function and catch
/// addresses) moved to where they stand after dead code removal.
pub open spec fn remap_op(s: Seq<OpCodeModel>, op: OpCodeModel) -> OpCodeModel {
    match op {
        OpCodeModel::Jmp(t) => OpCodeModel::Jmp(kept_addr(s, t)),
        OpCodeModel::Jz(t) => OpCodeModel::Jz(kept_addr(s, t)),
        OpCodeModel::Call { addr, params } => OpCodeModel::Call { addr: kept_addr(s, addr), params },
        OpCodeModel::MakeFunction { addr, params } => OpCodeModel::MakeFunction { addr: kept_addr(s, addr), params },
        OpCodeModel::MakeLambda { addr, params } => OpCodeModel::MakeLambda { addr: kept_addr(s, addr), params },
        OpCodeModel::Try { catch_addr } => OpCodeModel::Try { catch_addr: kept_addr(s, catch_addr) },
        _ => op,
    }
}

/// The reachable instructions among the first `n`, in order, their code
/// addresses moved (see [`remap_op`]).
pub open spec fn reachable_prefix(s: Seq<OpCodeModel>, n: int) -> Seq<OpCodeModel>
    decreases n,
{
    if n <= 0 {
        Seq::empty()
    } else if reachable(s, n - 1) {
        reachable_prefix(s, n - 1).push(remap_op(s, s[n - 1]))
    } else {
        reachable_prefix(s, n - 1)
    }
}

/// The program without its unreachable instructions, every code address
/// moved to where its instruction now stands.
pub open spec fn keep_reachable(s: Seq<OpCodeModel>) -> Seq<OpCodeModel> {
    reachable_prefix(s, s.len() as int)
}

/// The number of `true` entries.
pub open spec fn count_true(m: Seq<bool>) -> nat
    decreases m.len(),
{
    if m.len() == 0 {
        0
    } else {
        count_true(m.drop_last()) + if m.last() {
            1nat
        } else {
            0nat
        }
    }
}

proof fn lemma_count_true_bound(m: Seq<bool>)
    ensures
        count_true(m) <= m.len(),
    decreases m.len(),
{
    if m.len() > 0 {
        lemma_count_true_bound(m.drop_last());
    }
}

proof fn lemma_count_true_set(m: Seq<bool>, i: int)
    requires
        0 <= i < m.len(),
        !m[i],
    ensures
        count_true(m.update(i, true)) == count_true(m) + 1,
    decreases m.len(),
{
    if i == m.len() - 1 {
        assert(m.update(i, true).drop_last() =~= m.drop_last());
    } else {
        assert(m.update(i, true).drop_last() =~= m.drop_last().update(i, true));
        lemma_count_true_set(m.drop_last(), i);
    }
}

proof fn lemma_closed_contains_path(s: Seq<OpCodeModel>, marks: Seq<bool>, p: Seq<int>, n: int)
    requires
        marks.len() == s.len(),
        s.len() > 0 ==> marks[0],
        forall|a: int, b: int| 0 <= a < s.len() && marks[a] && #[trigger] step_to(s, a, b) ==> marks[b],
        is_path(s, p),
        0 <= n < p.len(),
    ensures
        0 <= p[n] < s.len() && marks[p[n]],
    decreases n,
{
    if n > 0 {
        lemma_closed_contains_path(s, marks, p, n - 1);
        assert(step_to(s, p[n - 1], p[n]));
    }
}

proof fn lemma_reachable_step(s: Seq<OpCodeModel>, a: int, b: int)
    requires
        reachable(s, a),
        step_to(s, a, b),
    ensures
        reachable(s, b),
{
    let p = choose|p: Seq<int>| #[trigger] is_path(s, p) && p.last() == a;
    let q = p.push(b);
    assert forall|t: int| 0 <= t < q.len() - 1 implies step_to(s, #[trigger] q[t], q[t + 1]) by {
        if t < p.len() - 1 {
            assert(q[t] == p[t] && q[t + 1] == p[t + 1]);
        } else {
            assert(q[t] == a);
        }
    }
    assert(is_path(s, q));
}

/// The invariant of the reachability search: marked instructions and
/// in-range pending addresses are reachable, every control edge out of a
/// marked instruction leads to a marked or pending address, and the entry is
/// marked or pending.
pub open spec fn search_inv(s: Seq<OpCodeModel>, marks: Seq<bool>, wl: Seq<usize>) -> bool {
    &&& marks.len() == s.len()
    &&& s.len() <= usize::MAX
    &&& forall|i: int| 0 <= i < s.len() && #[trigger] marks[i] ==> reachable(s, i)
    &&& forall|w: int| 0 <= w < wl.len() && #[trigger] wl[w] < s.len() ==> reachable(s, wl[w] as int)
    &&& forall|a: int, b: int|
        0 <= a < s.len() && marks[a] && #[trigger] step_to(s, a, b) ==> marks[b] || wl.contains(b as usize)
    &&& s.len() > 0 ==> marks[0] || wl.contains(0usize)
}

/// The control successors of `pc` as machine addresses.
pub open spec fn successor_addrs(s: Seq<OpCodeModel>, pc: int) -> Seq<usize> {
    Seq::new(successors(s, pc).len(), |t: int| successors(s, pc)[t] as usize)
}

proof fn lemma_search_skip(s: Seq<OpCodeModel>, marks: Seq<bool>, wl: Seq<usize>)
    requires
        search_inv(s, marks, wl),
        wl.len() > 0,
        wl.last() >= s.len() || marks[wl.last() as int],
    ensures
        search_inv(s, marks, wl.drop_last()),
{
    let nw = wl.drop_last();
    assert forall|w: int| 0 <= w < nw.len() && #[trigger] nw[w] < s.len() implies reachable(s, nw[w] as int) by {
        assert(nw[w] == wl[w]);
    }
    assert forall|a: int, b: int|
        0 <= a < s.len() && marks[a] && #[trigger] step_to(s, a, b) implies marks[b] || nw.contains(
            b as usize,
        ) by {
        if !marks[b] {
            let w = choose|w: int| 0 <= w < wl.len() && wl[w] == b as usize;
            if w < wl.len() - 1 {
                assert(nw[w] == b as usize);
            } else {
                assert(wl.last() as int == b);
            }
        }
    }
    if s.len() > 0 && !marks[0] {
        let w = choose|w: int| 0 <= w < wl.len() && wl[w] == 0usize;
        if w < wl.len() - 1 {
            assert(nw[w] == 0usize);
        } else {
            assert(wl.last() as int == 0);
        }
    }
}

proof fn lemma_search_mark(s: Seq<OpCodeModel>, marks: Seq<bool>, wl: Seq<usize>, pc: int)
    requires
        search_inv(s, marks, wl),
        wl.len() > 0,
        wl.last() == pc,
        0 <= pc < s.len(),
        !marks[pc],
        forall|t: int| 0 <= t < successors(s, pc).len() ==> 0 <= #[trigger] successors(s, pc)[t] <= usize::MAX,
    ensures
        search_inv(s, marks.update(pc, true), wl.drop_last() + successor_addrs(s, pc)),
{
    let m = marks.update(pc, true);
    let nw = wl.drop_last() + successor_addrs(s, pc);
    let succ = successors(s, pc);
    reveal(edge);
    assert(reachable(s, pc));
    assert forall|i: int| 0 <= i < s.len() && #[trigger] m[i] implies reachable(s, i) by {
        if i != pc {
            assert(marks[i]);
        }
    }
    assert forall|w: int| 0 <= w < nw.len() && #[trigger] nw[w] < s.len() implies reachable(s, nw[w] as int) by {
        if w >= wl.len() - 1 {
            let t = w - (wl.len() - 1);
            assert(nw[w] == successor_addrs(s, pc)[t]);
            assert(succ[t] == nw[w] as int);
            assert(succ.contains(nw[w] as int));
            reveal(edge);
            assert(step_to(s, pc, nw[w] as int));
            lemma_reachable_step(s, pc, nw[w] as int);
        } else {
            assert(nw[w] == wl[w]);
        }
    }
    assert forall|a: int, b: int|
        0 <= a < s.len() && m[a] && #[trigger] step_to(s, a, b) implies m[b] || nw.contains(b as usize) by {
        if a == pc {
            let t = choose|t: int| 0 <= t < succ.len() && succ[t] == b;
            assert(nw[wl.len() - 1 + t] == b as usize);
        } else if !m[b] {
            assert(marks[a]);
            let w = choose|w: int| 0 <= w < wl.len() && wl[w] == b as usize;
            if w < wl.len() - 1 {
                assert(nw[w] == b as usize);
            } else {
                assert(b == pc);
            }
        }
    }
    if s.len() > 0 && !m[0] {
        let w = choose|w: int| 0 <= w < wl.len() && wl[w] == 0usize;
        if w < wl.len() - 1 {
            assert(nw[w] == 0usize);
        }
    }
}

fn push_successors(instructions: &Vec<OpCode>, pc: usize, worklist: &mut Vec<usize>)
    requires
        pc < instructions@.len(),
    ensures
        final(worklist)@ == old(worklist)@ + successor_addrs(program_model(instructions@), pc as int),
        forall|t: int|
            0 <= t < successors(program_model(instructions@), pc as int).len() ==> 0 <= #[trigger] successors(
                program_model(instructions@),
                pc as int,
            )[t] <= usize::MAX,
{
    let ghost s = program_model(instructions@);
    let ghost w0 = worklist@;
    let len = instructions.len();
    assert(s[pc as int] == opcode_model(instructions@[pc as int]));
    match &instructions[pc] {
        OpCode::Jmp(target) => {
            worklist.push(*target);
        },
        OpCode::Jz(target) => {
            worklist.push(*target);
            worklist.push(pc + 1);
        },
        OpCode::Call { addr, .. } => {
            worklist.push(*addr);
            worklist.push(pc + 1);
        },
        OpCode::Try { catch_addr } => {
            worklist.push(*catch_addr);
            worklist.push(pc + 1);
        },
        OpCode::Ret | OpCode::Halt => {},
        _ => {
            worklist.push(pc + 1);
        },
    }
    assert(worklist@ =~= w0 + successor_addrs(s, pc as int));
}

impl Optimizer {
    /// Marks the instructions reachable from instruction 0 by a worklist
    /// search along jumps, calls, catch addresses and fall-through.
    pub fn find_reachable_instructions(instructions: &Vec<OpCode>) -> (marks: Vec<bool>)
        ensures
            marks@.len() == instructions@.len(),
            forall|i: int|
                0 <= i < marks@.len() ==> (marks@[i] <==> reachable(program_model(instructions@), i)),
    {
        let ghost s = program_model(instructions@);
        let len = instructions.len();
        let mut marks: Vec<bool> = Vec::new();
        let mut j: usize = 0;
        while j < len
            invariant
                j <= len,
                marks@.len() == j,
                forall|t: int| 0 <= t < j ==> !marks@[t],
            decreases len - j,
        {
            marks.push(false);
            j = j + 1;
        }
        let mut worklist: Vec<usize> = Vec::new();
        worklist.push(0);
        let mut marked: usize = 0;
        assert(worklist@[0] == 0usize);
        proof {
            lemma_count_zero(marks@);
            if len > 0 {
                let p = seq![0int];
                assert(is_path(s, p));
                assert(reachable(s, 0));
            }
        }
        while worklist.len() > 0
            invariant
                s == program_model(instructions@),
                len == instructions@.len(),
                marked as nat == count_true(marks@),
                marked <= len,
                search_inv(s, marks@, worklist@),
            decreases len - marked, worklist@.len(),
        {
            let ghost wl = worklist@;
            let pc = match worklist.pop() {
                Some(pc) => pc,
                None => 0,
            };
            assert(wl.last() == pc);
            assert(worklist@ == wl.drop_last());
            if pc >= len || marks[pc] {
                proof {
                    lemma_search_skip(s, marks@, wl);
                }
                continue;
            }
            proof {
                lemma_count_true_set(marks@, pc as int);
                lemma_count_true_bound(marks@.update(pc as int, true));
            }
            let ghost m0 = marks@;
            marks.set(pc, true);
            marked = marked + 1;
            push_successors(instructions, pc, &mut worklist);
            proof {
                lemma_search_mark(s, m0, wl, pc as int);
            }
        }
        proof {
            assert forall|i: int| 0 <= i < marks@.len() implies (marks@[i] <==> reachable(s, i)) by {
                if reachable(s, i) {
                    let p = choose|p: Seq<int>| #[trigger] is_path(s, p) && p.last() == i;
                    lemma_closed_contains_path(s, marks@, p, p.len() - 1);
                }
            }
        }
        marks
    }
}

proof fn lemma_count_zero(m: Seq<bool>)
    requires
        forall|t: int| 0 <= t < m.len() ==> !m[t],
    ensures
        count_true(m) == 0,
    decreases m.len(),
{
    if m.len() > 0 {
        lemma_count_zero(m.drop_last());
    }
}


proof fn lemma_reachable_prefix_len(s: Seq<OpCodeModel>, n: int)
    requires
        0 <= n <= s.len(),
    ensures
        reachable_prefix(s, n).len() <= n,
        reachable_prefix(s, n).len() == reachable_count(s, n),
    decreases n,
{
    if n > 0 {
        lemma_reachable_prefix_len(s, n - 1);
    }
}

/// `op` with its code addresses moved by the table `map`, which gives the
/// new address of every address up to the program's length.
fn remap_exec(op: &OpCode, map: &Vec<usize>, Ghost(s): Ghost<Seq<OpCodeModel>>) -> (r: OpCode)
    requires
        map@.len() == s.len() + 1,
        forall|j: int| 0 <= j <= s.len() ==> #[trigger] map@[j] == reachable_count(s, j),
    ensures
        opcode_model(r) == remap_op(s, opcode_model(*op)),
{
    let n = map.len() - 1;
    match op {
        OpCode::Jmp(t) => OpCode::Jmp(if *t <= n { map[*t] } else { *t }),
        OpCode::Jz(t) => OpCode::Jz(if *t <= n { map[*t] } else { *t }),
        OpCode::Call { addr, params } => OpCode::Call {
            addr: if *addr <= n { map[*addr] } else { *addr },
            params: crate::vm::value::copy_strings(params),
        },
        OpCode::MakeFunction { addr, params } => OpCode::MakeFunction {
            addr: if *addr <= n { map[*addr] } else { *addr },
            params: crate::vm::value::copy_strings(params),
        },
        OpCode::MakeLambda { addr, params } => OpCode::MakeLambda {
            addr: if *addr <= n { map[*addr] } else { *addr },
            params: crate::vm::value::copy_strings(params),
        },
        OpCode::Try { catch_addr } => OpCode::Try {
            catch_addr: if *catch_addr <= n { map[*catch_addr] } else { *catch_addr },
        },
        _ => op.copy(),
    }
}

impl Optimizer {
    /// Removes the instructions that control cannot reach from the entry.
    pub fn dead_code_elimination_pass(&mut self, instructions: Vec<OpCode>) -> (r: Vec<OpCode>)
        ensures
            program_model(r@) == keep_reachable(program_model(instructions@)),
            final(self).stats.dead_instructions_removed == instructions@.len() - r@.len(),
            final(self).stats.constants_folded == old(self).stats.constants_folded,
            final(self).stats.tail_calls_optimized == old(self).stats.tail_calls_optimized,
            final(self).stats.memory_operations_optimized == old(self).stats.memory_operations_optimized,
            final(self).options == old(self).options,
    {
        let ghost s = program_model(instructions@);
        let marks = Self::find_reachable_instructions(&instructions);
        let original_len = instructions.len();
        let mut map: Vec<usize> = Vec::new();
        let mut kept: usize = 0;
        let mut k: usize = 0;
        while k < instructions.len()
            invariant
                s == program_model(instructions@),
                marks@.len() == instructions@.len(),
                forall|j: int| 0 <= j < marks@.len() ==> (marks@[j] <==> reachable(s, j)),
                k <= instructions@.len(),
                map@.len() == k,
                kept == reachable_count(s, k as int),
                kept <= k,
                forall|j: int| 0 <= j < k ==> #[trigger] map@[j] == reachable_count(s, j),
            decreases instructions.len() - k,
        {
            map.push(kept);
            if marks[k] {
                kept = kept + 1;
            }
            k = k + 1;
        }
        map.push(kept);
        let mut optimized: Vec<OpCode> = Vec::new();
        let mut i: usize = 0;
        while i < instructions.len()
            invariant
                s == program_model(instructions@),
                marks@.len() == instructions@.len(),
                forall|j: int| 0 <= j < marks@.len() ==> (marks@[j] <==> reachable(s, j)),
                i <= instructions@.len(),
                program_model(optimized@) == reachable_prefix(s, i as int),
                map@.len() == s.len() + 1,
                forall|j: int| 0 <= j <= s.len() ==> #[trigger] map@[j] == reachable_count(s, j),
            decreases instructions.len() - i,
        {
            if marks[i] {
                let ghost before = program_model(optimized@);
                let c = remap_exec(&instructions[i], &map, Ghost(s));
                optimized.push(c);
                assert(program_model(optimized@) =~= before.push(remap_op(s, s[i as int])));
            }
            i = i + 1;
        }
        proof {
            lemma_reachable_prefix_len(s, s.len() as int);
        }
        self.stats.dead_instructions_removed = original_len - optimized.len();
        optimized
    }
}

// ---------------------------------------------------------------------------
// Tail calls

/// `s` with each call that is immediately followed by a return replaced:
/// a direct call becomes a jump to its target, and a call through a
/// function value stays a call; the return is dropped.
pub open spec fn tail_calls(s: Seq<OpCodeModel>) -> Seq<OpCodeModel>
    decreases s.len(),
{
    if s.len() == 0 {
        Seq::empty()
    } else if s.len() >= 2 && s[0] is Call && s[1] is Ret {
        seq![OpCodeModel::Jmp(s[0]->Call_addr)] + tail_calls(s.skip(2))
    } else if s.len() >= 2 && s[0] is CallFunction && s[1] is Ret {
        seq![OpCodeModel::CallFunction] + tail_calls(s.skip(2))
    } else {
        seq![s[0]] + tail_calls(s.drop_first())
    }
}

/// How many tail calls [`tail_calls`] replaces.
pub open spec fn tail_call_count(s: Seq<OpCodeModel>) -> nat
    decreases s.len(),
{
    if s.len() == 0 {
        0
    } else if s.len() >= 2 && (s[0] is Call || s[0] is CallFunction) && s[1] is Ret {
        1 + tail_call_count(s.skip(2))
    } else {
        tail_call_count(s.drop_first())
    }
}

proof fn lemma_tail_call_count_bound(s: Seq<OpCodeModel>)
    ensures
        tail_call_count(s) <= s.len(),
    decreases s.len(),
{
    if s.len() > 0 {
        if s.len() >= 2 && (s[0] is Call || s[0] is CallFunction) && s[1] is Ret {
            lemma_tail_call_count_bound(s.skip(2));
        } else {
            lemma_tail_call_count_bound(s.drop_first());
        }
    }
}

/// The replacement of the tail call at `start`, if one stands there.
pub fn try_optimize_tail_call(instructions: &Vec<OpCode>, start: usize) -> (r: Option<Vec<OpCode>>)
    requires
        start < instructions@.len(),
    ensures
        ({
            let s = program_model(instructions@).skip(start as int);
            match r {
                Some(v) => s.len() >= 2 && s[1] is Ret && ((s[0] is Call && program_model(v@) == seq![
                    OpCodeModel::Jmp(s[0]->Call_addr),
                ]) || (s[0] is CallFunction && program_model(v@) == seq![OpCodeModel::CallFunction])),
                None => !(s.len() >= 2 && (s[0] is Call || s[0] is CallFunction) && s[1] is Ret),
            }
        }),
{
    let ghost s = program_model(instructions@).skip(start as int);
    if instructions.len() - start < 2 {
        return None;
    }
    assert(s[0] == opcode_model(instructions@[start as int]));
    assert(s[1] == opcode_model(instructions@[start + 1]));
    match (&instructions[start], &instructions[start + 1]) {
        (OpCode::Call { addr, .. }, OpCode::Ret) => {
            let mut v = Vec::new();
            v.push(OpCode::Jmp(*addr));
            assert(program_model(v@) =~= seq![OpCodeModel::Jmp(s[0]->Call_addr)]);
            Some(v)
        },
        (OpCode::CallFunction, OpCode::Ret) => {
            let mut v = Vec::new();
            v.push(OpCode::CallFunction);
            assert(program_model(v@) =~= seq![OpCodeModel::CallFunction]);
            Some(v)
        },
        _ => None,
    }
}

impl Optimizer {
    /// Replaces calls that are immediately followed by a return.
    pub fn tail_call_optimization_pass(&mut self, instructions: Vec<OpCode>) -> (r: Vec<OpCode>)
        requires
            old(self).stats.tail_calls_optimized + instructions@.len() <= usize::MAX,
        ensures
            program_model(r@) == tail_calls(program_model(instructions@)),
            final(self).stats.tail_calls_optimized == old(self).stats.tail_calls_optimized + tail_call_count(
                program_model(instructions@),
            ),
            final(self).stats.constants_folded == old(self).stats.constants_folded,
            final(self).stats.dead_instructions_removed == old(self).stats.dead_instructions_removed,
            final(self).stats.memory_operations_optimized == old(self).stats.memory_operations_optimized,
            final(self).options == old(self).options,
    {
        let ghost s = program_model(instructions@);
        let mut optimized: Vec<OpCode> = Vec::new();
        let mut i: usize = 0;
        assert(s.skip(0) =~= s);
        proof {
            lemma_tail_call_count_bound(s);
        }
        while i < instructions.len()
            invariant
                s == program_model(instructions@),
                i <= instructions@.len(),
                program_model(optimized@) + tail_calls(s.skip(i as int)) == tail_calls(s),
                self.stats.tail_calls_optimized + tail_call_count(s.skip(i as int))
                    == old(self).stats.tail_calls_optimized + tail_call_count(s),
                tail_call_count(s) <= s.len(),
                old(self).stats.tail_calls_optimized + instructions@.len() <= usize::MAX,
                self.stats.constants_folded == old(self).stats.constants_folded,
                self.stats.dead_instructions_removed == old(self).stats.dead_instructions_removed,
                self.stats.memory_operations_optimized == old(self).stats.memory_operations_optimized,
                self.options == old(self).options,
            decreases instructions.len() - i,
        {
            let ghost rest = s.skip(i as int);
            let ghost before = program_model(optimized@);
            match try_optimize_tail_call(&instructions, i) {
                Some(replacement) => {
                    proof {
                        lemma_tail_call_count_bound(rest.skip(2));
                    }
                    let c = if let Some(first) = replacement.first() {
                        first.copy()
                    } else {
                        OpCode::Halt
                    };
                    assert(replacement@.len() == 1);
                    assert(opcode_model(c) == program_model(replacement@)[0]);
                    optimized.push(c);
                    self.stats.tail_calls_optimized = self.stats.tail_calls_optimized + 1;
                    proof {
                        assert(program_model(optimized@) =~= before.push(opcode_model(c)));
                        assert(rest.skip(2) =~= s.skip(i + 2));
                        assert(before + tail_calls(rest) =~= program_model(optimized@) + tail_calls(
                            s.skip(i + 2),
                        ));
                    }
                    i = i + 2;
                },
                None => {
                    let c = instructions[i].copy();
                    optimized.push(c);
                    proof {
                        assert(rest[0] == opcode_model(c));
                        assert(program_model(optimized@) =~= before.push(opcode_model(c)));
                        assert(rest.drop_first() =~= s.skip(i + 1));
                        assert(before + tail_calls(rest) =~= program_model(optimized@) + tail_calls(
                            s.skip(i + 1),
                        ));
                    }
                    i = i + 1;
                },
            }
        }
        proof {
            assert(s.skip(i as int) =~= Seq::<OpCodeModel>::empty());
            assert(program_model(optimized@) + Seq::<OpCodeModel>::empty() =~= program_model(optimized@));
        }
        optimized
    }

    /// Rewrites redundant memory operations at `start`; no pattern is
    /// rewritten at present, so the answer is always `None`.
    pub fn try_optimize_memory_operations(&self, instructions: &Vec<OpCode>, start: usize) -> (r: Option<
        (Vec<OpCode>, usize),
    >)
        ensures
            r is None,
    {
        if start >= instructions.len() || instructions.len() - start < 2 {
            return None;
        }
        match (&instructions[start], &instructions[start + 1]) {
            (OpCode::Store(_), OpCode::Load(_)) => None,
            _ => self.try_optimize_longer_memory_patterns(instructions, start),
        }
    }

    /// Rewrites longer memory patterns at `start`; none at present.
    pub fn try_optimize_longer_memory_patterns(&self, instructions: &Vec<OpCode>, start: usize) -> (r:
        Option<(Vec<OpCode>, usize)>)
        ensures
            r is None,
    {
        None
    }

    /// The memory-layout pass: the program is kept as it is.
    pub fn memory_layout_optimization_pass(&mut self, instructions: Vec<OpCode>) -> (r: Vec<OpCode>)
        ensures
            program_model(r@) == program_model(instructions@),
            final(self).stats == old(self).stats,
            final(self).options == old(self).options,
    {
        let mut optimized: Vec<OpCode> = Vec::new();
        let mut i: usize = 0;
        while i < instructions.len()
            invariant
                i <= instructions@.len(),
                program_model(optimized@) == program_model(instructions@).take(i as int),
                self.stats == old(self).stats,
                self.options == old(self).options,
            decreases instructions.len() - i,
        {
            match self.try_optimize_memory_operations(&instructions, i) {
                Some(_) => {},
                None => {},
            }
            let ghost before = program_model(optimized@);
            let c = instructions[i].copy();
            optimized.push(c);
            assert(program_model(instructions@)[i as int] == opcode_model(instructions@[i as int]));
            assert(program_model(optimized@) =~= before.push(opcode_model(c)));
            assert(program_model(optimized@) =~= program_model(instructions@).take(i + 1));
            i = i + 1;
        }
        assert(program_model(instructions@).take(i as int) =~= program_model(instructions@));
        optimized
    }
}


// ---------------------------------------------------------------------------
// The whole pipeline

/// The program after dead code elimination, if that pass is enabled.
pub open spec fn after_dead_code(o: OptimizationOptions, s: Seq<OpCodeModel>) -> Seq<OpCodeModel> {
    if o.dead_code_elimination {
        keep_reachable(s)
    } else {
        s
    }
}

/// The program after the passes that follow constant folding: dead code
/// elimination, tail calls, and the memory-layout pass (which keeps the
/// program as it is), each if enabled.
pub open spec fn after_later_passes(o: OptimizationOptions, s: Seq<OpCodeModel>) -> Seq<OpCodeModel> {
    if o.tail_call_optimization {
        tail_calls(after_dead_code(o, s))
    } else {
        after_dead_code(o, s)
    }
}

/// The counters of a run whose constant folding produced `mid` from `s`.
pub open spec fn run_stats(o: OptimizationOptions, s: Seq<OpCodeModel>, mid: Seq<OpCodeModel>, st: OptimizationStats) -> bool {
    &&& st.constants_folded == (if o.constant_folding {
        folded_count(s, 0)
    } else {
        0
    })
    &&& st.dead_instructions_removed == (if o.dead_code_elimination {
        mid.len() - keep_reachable(mid).len()
    } else {
        0
    })
    &&& st.tail_calls_optimized == (if o.tail_call_optimization {
        tail_call_count(after_dead_code(o, mid))
    } else {
        0
    })
    &&& st.memory_operations_optimized == 0
}

/// The counters of a run describe that run alone: two runs that fold the
/// program alike count the same, whatever the optimizer had counted
/// before, since each run starts its counters afresh.
pub proof fn law_run_stats_describe_one_run(
    o: OptimizationOptions,
    s: Seq<OpCodeModel>,
    mid: Seq<OpCodeModel>,
    a: OptimizationStats,
    b: OptimizationStats,
)
    requires
        run_stats(o, s, mid, a),
        run_stats(o, s, mid, b),
    ensures
        a == b,
{
}

impl Optimizer {
    /// Runs the enabled passes in order: constant folding, dead code
    /// elimination, tail calls, memory layout. The host's `float_op` computes
    /// folded float constants. Gives the program and the run's counters.
    pub fn optimize<F: Fn(FloatOp, u64, u64) -> u64>(&mut self, instructions: Vec<OpCode>, float_op: &F) -> (r: (
        Vec<OpCode>,
        OptimizationStats,
    ))
        requires
            old(self).options.constant_folding ==> fold_ok(program_model(instructions@), 0),
            float_op_total(*float_op),
        ensures
            exists|mid: Seq<OpCodeModel>|
                {
                    &&& (if old(self).options.constant_folding {
                        folds_from(program_model(instructions@), 0, mid, *float_op)
                    } else {
                        mid == program_model(instructions@)
                    })
                    &&& program_model(r.0@) == after_later_passes(old(self).options, mid)
                    &&& run_stats(old(self).options, program_model(instructions@), mid, r.1)
                },
            final(self).stats == r.1,
            final(self).options == old(self).options,
    {
        let ghost s = program_model(instructions@);
        let mut optimized = instructions;
        self.stats = OptimizationStats::default();
        let _n = optimized.len();
        if self.options.constant_folding {
            optimized = self.constant_folding_pass(optimized, float_op);
        }
        let ghost mid = program_model(optimized@);
        if self.options.dead_code_elimination {
            optimized = self.dead_code_elimination_pass(optimized);
        }
        let ghost a = program_model(optimized@);
        assert(a == after_dead_code(self.options, mid));
        let _n = optimized.len();
        if self.options.tail_call_optimization {
            optimized = self.tail_call_optimization_pass(optimized);
        }
        if self.options.memory_layout_optimization {
            optimized = self.memory_layout_optimization_pass(optimized);
        }
        assert(run_stats(self.options, s, mid, self.stats));
        let st = self.stats.copy();
        assert({
            &&& (if self.options.constant_folding {
                folds_from(s, 0, mid, *float_op)
            } else {
                mid == s
            })
            &&& program_model(optimized@) == after_later_passes(self.options, mid)
            &&& run_stats(self.options, s, mid, st)
        });
        (optimized, st)
    }
}

// ---------------------------------------------------------------------------
// Analysis

/// Counts of instruction classes in a program.
#[derive(Debug, PartialEq)]
pub struct ProgramAnalysis {
    pub total_instructions: usize,
    pub constant_count: usize,
    pub call_count: usize,
    pub memory_op_count: usize,
    pub jump_count: usize,
}

impl ProgramAnalysis {
    /// All counts zero.
    pub fn new() -> (a: ProgramAnalysis)
        ensures
            a.total_instructions == 0 && a.constant_count == 0 && a.call_count == 0 && a.memory_op_count == 0
                && a.jump_count == 0,
    {
        ProgramAnalysis { total_instructions: 0, constant_count: 0, call_count: 0, memory_op_count: 0, jump_count: 0 }
    }
}

/// Instructions that push a constant (booleans pushed by value excepted).
pub open spec fn is_constant_op(o: OpCodeModel) -> bool {
    o is PushInt || o is PushFloat || o is PushStr || o is True || o is False || o is Null
}

/// Instructions that call.
pub open spec fn is_call_op(o: OpCodeModel) -> bool {
    o is Call || o is CallFunction
}

/// Instructions that read or write a variable.
pub open spec fn is_memory_op(o: OpCodeModel) -> bool {
    o is Load || o is Store
}

/// Instructions that jump.
pub open spec fn is_jump_op(o: OpCodeModel) -> bool {
    o is Jmp || o is Jz
}

/// The instruction classes that the analysis counts.
pub enum OpClass {
    Constant,
    Call,
    Memory,
    Jump,
}

/// Whether `o` belongs to class `c`.
pub open spec fn in_class(o: OpCodeModel, c: OpClass) -> bool {
    match c {
        OpClass::Constant => is_constant_op(o),
        OpClass::Call => is_call_op(o),
        OpClass::Memory => is_memory_op(o),
        OpClass::Jump => is_jump_op(o),
    }
}

/// How many instructions of `s` belong to class `p`.
pub open spec fn count_ops(s: Seq<OpCodeModel>, p: OpClass) -> nat
    decreases s.len(),
{
    if s.len() == 0 {
        0
    } else {
        count_ops(s.drop_last(), p) + if in_class(s.last(), p) {
            1nat
        } else {
            0nat
        }
    }
}

proof fn lemma_count_ops_step(s: Seq<OpCodeModel>, i: int, p: OpClass)
    requires
        0 <= i < s.len(),
    ensures
        count_ops(s.take(i + 1), p) == count_ops(s.take(i), p) + if in_class(s[i], p) {
            1nat
        } else {
            0nat
        },
{
    let t = s.take(i + 1);
    assert(t.drop_last() =~= s.take(i));
    assert(t.last() == s[i]);
}

proof fn lemma_count_ops_bound(s: Seq<OpCodeModel>, p: OpClass)
    ensures
        count_ops(s, p) <= s.len(),
    decreases s.len(),
{
    if s.len() > 0 {
        lemma_count_ops_bound(s.drop_last(), p);
    }
}

fn op_classes(o: &OpCode) -> (r: (bool, bool, bool, bool))
    ensures
        r.0 == is_constant_op(opcode_model(*o)),
        r.1 == is_call_op(opcode_model(*o)),
        r.2 == is_memory_op(opcode_model(*o)),
        r.3 == is_jump_op(opcode_model(*o)),
{
    match o {
        OpCode::PushInt(_) | OpCode::PushFloat(_) | OpCode::PushStr(_) | OpCode::True | OpCode::False
        | OpCode::Null => (true, false, false, false),
        OpCode::Call { .. } | OpCode::CallFunction => (false, true, false, false),
        OpCode::Load(_) | OpCode::Store(_) => (false, false, true, false),
        OpCode::Jmp(_) | OpCode::Jz(_) => (false, false, false, true),
        _ => (false, false, false, false),
    }
}

impl Optimizer {
    /// Counts constants, calls, variable accesses and jumps.
    pub fn analyze_program(&self, instructions: &Vec<OpCode>) -> (a: ProgramAnalysis)
        ensures
            a.total_instructions == instructions@.len(),
            a.constant_count == count_ops(program_model(instructions@), OpClass::Constant),
            a.call_count == count_ops(program_model(instructions@), OpClass::Call),
            a.memory_op_count == count_ops(program_model(instructions@), OpClass::Memory),
            a.jump_count == count_ops(program_model(instructions@), OpClass::Jump),
    {
        let ghost s = program_model(instructions@);
        let mut analysis = ProgramAnalysis::new();
        let mut i: usize = 0;
        while i < instructions.len()
            invariant
                s == program_model(instructions@),
                i <= instructions@.len(),
                analysis.constant_count == count_ops(s.take(i as int), OpClass::Constant),
                analysis.call_count == count_ops(s.take(i as int), OpClass::Call),
                analysis.memory_op_count == count_ops(s.take(i as int), OpClass::Memory),
                analysis.jump_count == count_ops(s.take(i as int), OpClass::Jump),
            decreases instructions.len() - i,
        {
            proof {
                assert(s.take(i + 1).drop_last() =~= s.take(i as int));
                assert(s.take(i + 1).last() == opcode_model(instructions@[i as int]));
                lemma_count_ops_bound(s.take(i as int), OpClass::Constant);
                lemma_count_ops_bound(s.take(i as int), OpClass::Call);
                lemma_count_ops_bound(s.take(i as int), OpClass::Memory);
                lemma_count_ops_bound(s.take(i as int), OpClass::Jump);
                lemma_count_ops_step(s, i as int, OpClass::Constant);
                lemma_count_ops_step(s, i as int, OpClass::Call);
                lemma_count_ops_step(s, i as int, OpClass::Memory);
                lemma_count_ops_step(s, i as int, OpClass::Jump);
            }
            let (is_c, is_l, is_m, is_j) = op_classes(&instructions[i]);
            if is_c {
                analysis.constant_count = analysis.constant_count + 1;
            }
            if is_l {
                analysis.call_count = analysis.call_count + 1;
            }
            if is_m {
                analysis.memory_op_count = analysis.memory_op_count + 1;
            }
            if is_j {
                analysis.jump_count = analysis.jump_count + 1;
            }
            i = i + 1;
        }
        assert(s.take(i as int) =~= s);
        analysis.total_instructions = instructions.len();
        analysis
    }
}


/// The length of the fold at `start` (0 when there is none) and whether it
/// is an integer overflow.
fn fold_shape(instructions: &Vec<OpCode>, start: usize) -> (r: (usize, bool))
    requires
        start < instructions@.len(),
    ensures
        match fold_at(program_model(instructions@), start as int) {
            Some((Fold::Overflow, n)) => r.1 && r.0 == n,
            Some((_, n)) => !r.1 && r.0 == n,
            None => !r.1 && r.0 == 0,
        },
{
    let ghost s = program_model(instructions@);
    let len = instructions.len();
    if len - start >= 2 {
        assert(s[start as int] == opcode_model(instructions@[start as int]));
        assert(s[start + 1] == opcode_model(instructions@[start + 1]));
        match (&instructions[start], &instructions[start + 1]) {
            (OpCode::True, OpCode::Not) => {
                return (2, false);
            },
            (OpCode::False, OpCode::Not) => {
                return (2, false);
            },
            _ => {},
        }
    }
    if len - start <= 2 {
        return (0, false);
    }
    assert(s[start as int] == opcode_model(instructions@[start as int]));
    assert(s[start + 1] == opcode_model(instructions@[start + 1]));
    assert(s[start + 2] == opcode_model(instructions@[start + 2]));
    match (&instructions[start], &instructions[start + 1], &instructions[start + 2]) {
        (OpCode::PushInt(a), OpCode::PushInt(b), OpCode::Add) => (3, a.checked_add(*b).is_none()),
        (OpCode::PushInt(a), OpCode::PushInt(b), OpCode::Sub) => (3, a.checked_sub(*b).is_none()),
        (OpCode::PushFloat(_), OpCode::PushFloat(_), OpCode::AddF) => (3, false),
        (OpCode::PushFloat(_), OpCode::PushFloat(_), OpCode::SubF) => (3, false),
        (OpCode::PushFloat(_), OpCode::PushFloat(_), OpCode::MulF) => (3, false),
        (OpCode::PushFloat(_), OpCode::PushFloat(b), OpCode::DivF) => if !float_is_zero(*b) {
            (3, false)
        } else {
            (0, false)
        },
        (OpCode::PushInt(_), OpCode::PushInt(_), OpCode::Eq) => (3, false),
        (OpCode::PushInt(_), OpCode::PushInt(_), OpCode::Ne) => (3, false),
        (OpCode::PushInt(_), OpCode::PushInt(_), OpCode::Lt) => (3, false),
        (OpCode::PushInt(_), OpCode::PushInt(_), OpCode::Gt) => (3, false),
        _ => (0, false),
    }
}

/// Whether constant folding would meet an integer sum or difference that
/// does not fit in an `i64` (the folding pass does not accept such programs).
pub fn folding_overflows(instructions: &Vec<OpCode>) -> (r: bool)
    ensures
        r == !fold_ok(program_model(instructions@), 0),
{
    let ghost s = program_model(instructions@);
    let mut i: usize = 0;
    while i < instructions.len()
        invariant
            s == program_model(instructions@),
            i <= instructions@.len(),
            fold_ok(s, i as int) == fold_ok(s, 0),
        decreases instructions.len() - i,
    {
        let (n, overflow) = fold_shape(instructions, i);
        if overflow {
            return true;
        }
        if n == 0 {
            i = i + 1;
        } else {
            i = i + n;
        }
    }
    false
}


/// The stack machine's state after running `ops` one by one from `st`, when
/// each of them completes.
pub open spec fn run_ops(st: MState, ops: Seq<OpCodeModel>) -> Option<MState>
    decreases ops.len(),
{
    if ops.len() == 0 {
        Some(st)
    } else {
        match run_ops(st, ops.drop_last()) {
            Some(t) => match exec_spec(t, ops.last()) {
                Ok((u, MEffect::Done)) => Some(u),
                _ => None,
            },
            None => None,
        }
    }
}

/// The outcome of one instruction as `run_ops` counts it.
pub open spec fn done_state(o: Result<(MState, MEffect), (MState, VMErrorModel)>) -> Option<MState> {
    match o {
        Ok((u, MEffect::Done)) => Some(u),
        _ => None,
    }
}

proof fn lemma_run_one(st: MState, op: OpCodeModel)
    ensures
        run_ops(st, seq![op]) == done_state(exec_spec(st, op)),
{
    reveal_with_fuel(run_ops, 2);
    assert(seq![op].drop_last() =~= Seq::<OpCodeModel>::empty());
}

proof fn lemma_run_pushes(st: MState, x: i64, y: i64, op: OpCodeModel)
    ensures
        run_ops(st, seq![OpCodeModel::PushInt(x), OpCodeModel::PushInt(y), op]) == done_state(
            exec_spec(push(push(st, ValueModel::Int(x)), ValueModel::Int(y)), op),
        ),
{
    let ops = seq![OpCodeModel::PushInt(x), OpCodeModel::PushInt(y), op];
    assert(ops.drop_last() =~= seq![OpCodeModel::PushInt(x), OpCodeModel::PushInt(y)]);
    assert(ops.drop_last().drop_last() =~= seq![OpCodeModel::PushInt(x)]);
    lemma_run_one(st, OpCodeModel::PushInt(x));
    let t1 = push(st, ValueModel::Int(x));
    assert(exec_spec(t1, OpCodeModel::PushInt(y)) == Ok::<(MState, MEffect), (MState, VMErrorModel)>(
        (push(t1, ValueModel::Int(y)), MEffect::Done),
    ));
    assert(run_ops(st, ops.drop_last()) == Some(push(t1, ValueModel::Int(y))));
}

proof fn lemma_pop_two(st: MState, x: i64, y: i64)
    ensures
        forall|nm: Seq<char>|
            pop2(push(push(st, ValueModel::Int(x)), ValueModel::Int(y)), nm) == Ok::<
                (MState, ValueModel, ValueModel),
                (MState, VMErrorModel),
            >((st, ValueModel::Int(x), ValueModel::Int(y))),
{
    let t1 = push(st, ValueModel::Int(x));
    let t2 = push(t1, ValueModel::Int(y));
    assert(t2.stack.drop_last() =~= t1.stack);
    assert(MState { stack: t2.stack.drop_last(), ..t2 } == t1);
    assert(t1.stack.drop_last() =~= st.stack);
    assert(MState { stack: t1.stack.drop_last(), ..t1 } == st);
}

#[verifier::rlimit(40)]
proof fn lemma_fold_ints(st: MState, x: i64, y: i64, op: OpCodeModel, ins: OpCodeModel)
    requires
        (op is Add && i64::MIN <= x + y <= i64::MAX && ins == OpCodeModel::PushInt((x + y) as i64))
            || (op is Sub && i64::MIN <= x - y <= i64::MAX && ins == OpCodeModel::PushInt((x - y) as i64))
            || (op is Eq && ins == bool_op(x == y)) || (op is Ne && ins == bool_op(x != y))
            || (op is Lt && ins == bool_op(x < y)) || (op is Gt && ins == bool_op(x > y)),
    ensures
        run_ops(st, seq![OpCodeModel::PushInt(x), OpCodeModel::PushInt(y), op]) == run_ops(st, seq![ins]),
        run_ops(st, seq![ins]) is Some,
{
    lemma_run_pushes(st, x, y, op);
    lemma_run_one(st, ins);
    lemma_pop_two(st, x, y);
}

#[verifier::rlimit(40)]
proof fn lemma_fold_not(st: MState, b: bool)
    ensures
        run_ops(st, seq![if b { OpCodeModel::True } else { OpCodeModel::False }, OpCodeModel::Not]) == run_ops(
            st,
            seq![if b { OpCodeModel::False } else { OpCodeModel::True }],
        ),
        run_ops(st, seq![if b { OpCodeModel::False } else { OpCodeModel::True }]) is Some,
{
    let first = if b { OpCodeModel::True } else { OpCodeModel::False };
    let ops = seq![first, OpCodeModel::Not];
    assert(ops.drop_last() =~= seq![first]);
    reveal_with_fuel(run_ops, 2);
    lemma_run_one(st, first);
    lemma_run_one(st, if b { OpCodeModel::False } else { OpCodeModel::True });
    let t1 = push(st, ValueModel::Bool(b));
    assert(t1.stack.drop_last() =~= st.stack);
    assert(MState { stack: t1.stack.drop_last(), ..t1 } == st);
}

/// Constant folding keeps a program's meaning: the instructions that a
/// constant fold replaces leave the stack machine, from any state, just as
/// the single instruction that replaces them does (for `PUSH_INT a`,
/// `PUSH_INT b`, `LT`: the truth value of `a < b`).
pub proof fn law_constant_fold_keeps_meaning(s: Seq<OpCodeModel>, i: int, st: MState)
    requires
        0 <= i,
        fold_at(s, i) matches Some((Fold::Const(_), _)),
    ensures
        run_ops(st, s.subrange(i, i + fold_at(s, i)->Some_0.1)) == run_ops(
            st,
            seq![fold_at(s, i)->Some_0.0->Const_0],
        ),
        run_ops(st, seq![fold_at(s, i)->Some_0.0->Const_0]) is Some,
{
    let n = fold_at(s, i)->Some_0.1;
    let ins = fold_at(s, i)->Some_0.0->Const_0;
    let ops = s.subrange(i, i + n);
    if n == 2 {
        assert(ops =~= seq![s[i], s[i + 1]]);
        lemma_fold_not(st, s[i] is True);
    } else {
        assert(ops =~= seq![s[i], s[i + 1], s[i + 2]]);
        lemma_fold_ints(st, s[i]->PushInt_0, s[i + 1]->PushInt_0, s[i + 2], ins);
    }
}

} // verus!
