//! Lowering of stack bytecode to register instructions: a simulated operand
//! stack records which register holds each stack slot.
use vstd::prelude::*;
use crate::ir::{RegBlock, RegInstr, RegInstrModel, RegValue, RegValueModel, RegId, StackState, instrs_model};
use crate::vm::errors::{VMError, VMErrorModel};
use crate::vm::opcode::{OpCode, OpCodeModel, opcode_model, program_model};
use crate::vm::value::{Value, ValueModel};

verus! {

/// The lowering state: the instructions emitted so far, the number of
/// registers allocated, and the registers on the simulated stack.
pub struct LowerState {
    pub instrs: Seq<RegInstrModel>,
    pub next_reg: nat,
    pub stack: Seq<u32>,
}

/// The constant that a push instruction puts on the stack.
pub open spec fn pushed_const(op: OpCodeModel) -> Option<ValueModel> {
    match op {
        OpCodeModel::PushInt(n) => Some(ValueModel::Int(n)),
        OpCodeModel::PushFloat(f) => Some(ValueModel::Float(f)),
        OpCodeModel::PushStr(s) => Some(ValueModel::Str(s)),
        OpCodeModel::PushBool(b) => Some(ValueModel::Bool(b)),
        OpCodeModel::True => Some(ValueModel::Bool(true)),
        OpCodeModel::False => Some(ValueModel::Bool(false)),
        OpCodeModel::Null => Some(ValueModel::Null),
        _ => None,
    }
}

/// The register instruction of a binary stack instruction, writing `d`
/// from `a` (the lower operand) and `b` (the top operand).
pub open spec fn binary_instr(op: OpCodeModel, d: u32, a: u32, b: u32) -> Option<RegInstrModel> {
    match op {
        OpCodeModel::Add => Some(RegInstrModel::Add(d, a, b)),
        OpCodeModel::AddF => Some(RegInstrModel::AddF(d, a, b)),
        OpCodeModel::Sub => Some(RegInstrModel::Sub(d, a, b)),
        OpCodeModel::SubF => Some(RegInstrModel::SubF(d, a, b)),
        OpCodeModel::Mul => Some(RegInstrModel::Mul(d, a, b)),
        OpCodeModel::MulF => Some(RegInstrModel::MulF(d, a, b)),
        OpCodeModel::Div => Some(RegInstrModel::Div(d, a, b)),
        OpCodeModel::DivF => Some(RegInstrModel::DivF(d, a, b)),
        OpCodeModel::Concat => Some(RegInstrModel::Concat(d, a, b)),
        OpCodeModel::Eq => Some(RegInstrModel::Eq(d, a, b)),
        OpCodeModel::Ne => Some(RegInstrModel::Ne(d, a, b)),
        OpCodeModel::Lt => Some(RegInstrModel::Lt(d, a, b)),
        OpCodeModel::Le => Some(RegInstrModel::Le(d, a, b)),
        OpCodeModel::Gt => Some(RegInstrModel::Gt(d, a, b)),
        OpCodeModel::Ge => Some(RegInstrModel::Ge(d, a, b)),
        OpCodeModel::And => Some(RegInstrModel::And(d, a, b)),
        OpCodeModel::Or => Some(RegInstrModel::Or(d, a, b)),
        _ => None,
    }
}

/// `st` with `instr` emitted.
pub open spec fn emit(st: LowerState, instr: RegInstrModel) -> LowerState {
    LowerState { instrs: st.instrs.push(instr), next_reg: st.next_reg, stack: st.stack }
}

/// `st` with a fresh register that `instr(reg)` writes, pushed on the stack.
pub open spec fn emit_fresh(st: LowerState, instr: RegInstrModel) -> LowerState {
    LowerState {
        instrs: st.instrs.push(instr),
        next_reg: st.next_reg + 1,
        stack: st.stack.push(st.next_reg as u32),
    }
}

/// The register that an operand missing from the simulated stack is read
/// from: no machine has it, so running the instruction fails, as the stack
/// machine does on an empty stack.
pub const MISSING_REG: u32 = 0xFFFF_FFFF;

/// The register of operand `i` (from the bottom) of the top `k` stack
/// slots; a slot below the stack's bottom is missing.
pub open spec fn operand(st: LowerState, k: int, i: int) -> u32 {
    let j = st.stack.len() - k + i;
    if 0 <= j < st.stack.len() {
        st.stack[j]
    } else {
        MISSING_REG
    }
}

/// `st` with its top `k` stack entries removed.
pub open spec fn drop_top(st: LowerState, k: nat) -> LowerState {
    LowerState { instrs: st.instrs, next_reg: st.next_reg, stack: st.stack.subrange(0, st.stack.len() - k) }
}

/// The lowering of one stack instruction, after the instructions before it.
pub open spec fn lower_step(st: LowerState, op: OpCodeModel) -> Result<LowerState, VMErrorModel> {
    let reg = st.next_reg as u32;
    let n = st.stack.len();
    match pushed_const(op) {
        Some(v) => Ok(emit_fresh(st, RegInstrModel::Mov(reg, RegValueModel::Const(v)))),
        None => if binary_instr(op, 0, 0, 0) is Some {
            if n < 2 {
                Ok(emit_fresh(drop_top(st, n), binary_instr(op, reg, operand(st, 2, 0), operand(st, 2, 1))->Some_0))
            } else {
                Ok(emit_fresh(drop_top(st, 2), binary_instr(op, reg, st.stack[n - 2], st.stack[n - 1])->Some_0))
            }
        } else {
            match op {
                OpCodeModel::Not => if n < 1 {
                    Ok(emit_fresh(st, RegInstrModel::Not(reg, MISSING_REG)))
                } else {
                    Ok(emit_fresh(drop_top(st, 1), RegInstrModel::Not(reg, st.stack[n - 1])))
                },
                OpCodeModel::Store(name) => if n < 1 {
                    Ok(emit(st, RegInstrModel::Store(name, MISSING_REG)))
                } else {
                    Ok(emit(drop_top(st, 1), RegInstrModel::Store(name, st.stack[n - 1])))
                },
                OpCodeModel::Load(name) => Ok(emit_fresh(st, RegInstrModel::Load(reg, name))),
                OpCodeModel::Jmp(t) => Ok(emit(st, RegInstrModel::Jmp(t))),
                OpCodeModel::Jz(t) => if n < 1 {
                    Ok(emit(st, RegInstrModel::Jz(MISSING_REG, t)))
                } else {
                    Ok(emit(drop_top(st, 1), RegInstrModel::Jz(st.stack[n - 1], t)))
                },
                OpCodeModel::Call { addr, params } => Ok(
                    emit_fresh(st, RegInstrModel::Call(Some(reg), addr, Seq::empty())),
                ),
                OpCodeModel::Ret => if n < 1 {
                    Ok(emit(st, RegInstrModel::Ret(None)))
                } else {
                    Ok(emit(drop_top(st, 1), RegInstrModel::Ret(Some(st.stack[n - 1]))))
                },
                OpCodeModel::Print => if n < 1 {
                    Ok(emit(st, RegInstrModel::Print(MISSING_REG)))
                } else {
                    Ok(emit(drop_top(st, 1), RegInstrModel::Print(st.stack[n - 1])))
                },
                OpCodeModel::Dup => if n < 1 {
                    Ok(emit_fresh(st, RegInstrModel::Mov(reg, RegValueModel::Reg(MISSING_REG))))
                } else {
                    Ok(emit_fresh(st, RegInstrModel::Mov(reg, RegValueModel::Reg(st.stack[n - 1]))))
                },
                OpCodeModel::MakeList(count) => if n < count {
                    Ok(emit_fresh(drop_top(st, n), RegInstrModel::MakeList(reg, seq![MISSING_REG])))
                } else {
                    Ok(
                        emit_fresh(
                            drop_top(st, count as nat),
                            RegInstrModel::MakeList(reg, st.stack.subrange(n - count, n as int)),
                        ),
                    )
                },
                OpCodeModel::Len => if n < 1 {
                    Ok(emit_fresh(st, RegInstrModel::Len(reg, MISSING_REG)))
                } else {
                    Ok(emit_fresh(drop_top(st, 1), RegInstrModel::Len(reg, st.stack[n - 1])))
                },
                OpCodeModel::Index => if n < 2 {
                    Ok(emit_fresh(drop_top(st, n), RegInstrModel::Index(reg, operand(st, 2, 0), operand(st, 2, 1))))
                } else {
                    Ok(emit_fresh(drop_top(st, 2), RegInstrModel::Index(reg, st.stack[n - 2], st.stack[n - 1])))
                },
                OpCodeModel::MakeObject => Ok(emit_fresh(st, RegInstrModel::MakeObject(reg))),
                OpCodeModel::Spawn => if n < 1 {
                    Ok(emit_fresh(st, RegInstrModel::Spawn(reg, MISSING_REG)))
                } else {
                    Ok(emit_fresh(drop_top(st, 1), RegInstrModel::Spawn(reg, st.stack[n - 1])))
                },
                OpCodeModel::Halt => Ok(emit(st, RegInstrModel::Halt)),
                _ => Ok(emit(st, RegInstrModel::Nop)),
            }
        }
    }
}

/// The lowering state after the instructions `ops`, or the first error.
pub open spec fn lower_prefix(ops: Seq<OpCodeModel>) -> Result<LowerState, VMErrorModel>
    decreases ops.len(),
{
    if ops.len() == 0 {
        Ok(LowerState { instrs: Seq::empty(), next_reg: 0, stack: Seq::empty() })
    } else {
        match lower_prefix(ops.drop_last()) {
            Ok(st) => lower_step(st, ops.last()),
            Err(e) => Err(e),
        }
    }
}


fn pushed_const_exec(op: &OpCode) -> (r: Option<Value>)
    ensures
        match pushed_const(opcode_model(*op)) {
            Some(v) => r is Some && r->Some_0@ == v,
            None => r is None,
        },
{
    match op {
        OpCode::PushInt(n) => Some(Value::Int(*n)),
        OpCode::PushFloat(f) => Some(Value::Float(*f)),
        OpCode::PushStr(s) => Some(Value::Str(s.clone())),
        OpCode::PushBool(b) => Some(Value::Bool(*b)),
        OpCode::True => Some(Value::Bool(true)),
        OpCode::False => Some(Value::Bool(false)),
        OpCode::Null => Some(Value::Null),
        _ => None,
    }
}

fn binary_instr_exec(op: &OpCode, d: RegId, a: RegId, b: RegId) -> (r: Option<RegInstr>)
    ensures
        match binary_instr(opcode_model(*op), d, a, b) {
            Some(i) => r is Some && r->Some_0@ == i,
            None => r is None,
        },
{
    match op {
        OpCode::Add => Some(RegInstr::Add(d, a, b)),
        OpCode::AddF => Some(RegInstr::AddF(d, a, b)),
        OpCode::Sub => Some(RegInstr::Sub(d, a, b)),
        OpCode::SubF => Some(RegInstr::SubF(d, a, b)),
        OpCode::Mul => Some(RegInstr::Mul(d, a, b)),
        OpCode::MulF => Some(RegInstr::MulF(d, a, b)),
        OpCode::Div => Some(RegInstr::Div(d, a, b)),
        OpCode::DivF => Some(RegInstr::DivF(d, a, b)),
        OpCode::Concat => Some(RegInstr::Concat(d, a, b)),
        OpCode::Eq => Some(RegInstr::Eq(d, a, b)),
        OpCode::Ne => Some(RegInstr::Ne(d, a, b)),
        OpCode::Lt => Some(RegInstr::Lt(d, a, b)),
        OpCode::Le => Some(RegInstr::Le(d, a, b)),
        OpCode::Gt => Some(RegInstr::Gt(d, a, b)),
        OpCode::Ge => Some(RegInstr::Ge(d, a, b)),
        OpCode::And => Some(RegInstr::And(d, a, b)),
        OpCode::Or => Some(RegInstr::Or(d, a, b)),
        _ => None,
    }
}

/// The lowering of stack bytecode to a register block.
pub struct StackToRegisterLowering {
    block: RegBlock,
    stack: StackState,
    label_map: Vec<usize>,
}

impl StackToRegisterLowering {
    /// The lowering state held so far.
    pub closed spec fn state(&self) -> LowerState {
        LowerState {
            instrs: instrs_model(self.block.instructions@),
            next_reg: self.block.register_count as nat,
            stack: self.stack@,
        }
    }

    /// The address map sends each bytecode address to the same IR index,
    /// and the block has no entry offset and no variables.
    pub closed spec fn wf(&self) -> bool {
        &&& forall|i: int| 0 <= i < self.label_map@.len() ==> self.label_map@[i] == i
        &&& self.block.entry == 0
        &&& self.block.variables@.len() == 0
    }

    /// Whether no bytecode address has been mapped yet.
    pub closed spec fn unmapped(&self) -> bool {
        self.label_map@.len() == 0
    }

    /// A lowering with an empty block and an empty stack.
    pub fn new() -> (l: StackToRegisterLowering)
        ensures
            l.wf(),
            l.unmapped(),
            l.state() == (LowerState { instrs: Seq::empty(), next_reg: 0, stack: Seq::empty() }),
    {
        let l = StackToRegisterLowering { block: RegBlock::new(), stack: StackState::new(), label_map: Vec::new() };
        assert(instrs_model(l.block.instructions@) =~= Seq::<RegInstrModel>::empty());
        l
    }

    /// Lowers a bytecode program to a register block: one register
    /// instruction per bytecode instruction, so jump targets carry over.
    /// Lowering always succeeds; an operand missing from the stack is read
    /// from a register that no machine has, so running that instruction
    /// fails.
    pub fn lower(bytecode: &[OpCode]) -> (r: Result<RegBlock, VMError>)
        requires
            bytecode@.len() < u32::MAX,
        ensures
            r is Ok,
            match lower_prefix(program_model(bytecode@)) {
                Ok(st) => r is Ok && instrs_model(r->Ok_0.instructions@) == st.instrs && r->Ok_0.register_count
                    == st.next_reg && r->Ok_0.entry == 0 && r->Ok_0.variables@.len() == 0,
                Err(e) => r is Err && r->Err_0@ == e,
            },
    {
        proof {
            law_lowering_always_succeeds(program_model(bytecode@));
        }
        let mut lowering = Self::new();
        match lowering.process_bytecode(bytecode) {
            Ok(()) => Ok(lowering.block),
            Err(e) => Err(e),
        }
    }

    fn process_bytecode(&mut self, bytecode: &[OpCode]) -> (r: Result<(), VMError>)
        requires
            bytecode@.len() < u32::MAX,
            old(self).wf(),
            old(self).state() == (LowerState { instrs: Seq::empty(), next_reg: 0, stack: Seq::empty() }),
            old(self).unmapped(),
        ensures
            final(self).wf(),
            match lower_prefix(program_model(bytecode@)) {
                Ok(st) => r is Ok && final(self).state() == st,
                Err(e) => r is Err && r->Err_0@ == e,
            },
    {
        let mut count: usize = 0;
        let mut addr: usize = 0;
        while addr < bytecode.len()
            invariant
                addr <= bytecode@.len(),
                count == addr,
                self.label_map@.len() == addr,
                self.wf(),
                self.state() == (LowerState { instrs: Seq::empty(), next_reg: 0, stack: Seq::empty() }),
            decreases bytecode.len() - addr,
        {
            self.label_map.push(count);
            count = count + 1;
            addr = addr + 1;
        }
        let ghost ops = program_model(bytecode@);
        let mut i: usize = 0;
        assert(ops.take(0) =~= Seq::<OpCodeModel>::empty());
        while i < bytecode.len()
            invariant
                i <= bytecode@.len(),
                bytecode@.len() < u32::MAX,
                ops == program_model(bytecode@),
                self.wf(),
                lower_prefix(ops.take(i as int)) == Ok::<LowerState, VMErrorModel>(self.state()),
                self.state().next_reg <= i,
            decreases bytecode.len() - i,
        {
            assert(ops.take(i + 1).drop_last() =~= ops.take(i as int));
            assert(ops.take(i + 1).last() == opcode_model(bytecode@[i as int]));
            match self.translate_instruction(i, &bytecode[i]) {
                Ok(()) => {},
                Err(e) => {
                    proof {
                        lemma_lower_error(ops, i + 1);
                    }
                    return Err(e);
                },
            }
            i = i + 1;
        }
        assert(ops.take(bytecode@.len() as int) =~= ops);
        Ok(())
    }

    fn emit_instr(&mut self, instr: RegInstr)
        ensures
            final(self).state() == emit(old(self).state(), instr@),
            final(self).label_map@ == old(self).label_map@,
            final(self).block.entry == old(self).block.entry,
            final(self).block.variables@ == old(self).block.variables@,
    {
        let ghost before = self.block.instructions@;
        self.block.add_instruction(instr);
        assert(instrs_model(self.block.instructions@) =~= instrs_model(before).push(instr@));
    }

    /// Emits `instr`, which writes the register just allocated, and pushes
    /// that register.
    fn emit_pushed(&mut self, instr: RegInstr, reg: RegId)
        requires
            old(self).state().next_reg >= 1,
            reg == old(self).state().next_reg - 1,
        ensures
            final(self).state() == (LowerState {
                instrs: old(self).state().instrs.push(instr@),
                next_reg: old(self).state().next_reg,
                stack: old(self).state().stack.push(reg),
            }),
            final(self).label_map@ == old(self).label_map@,
            final(self).block.entry == old(self).block.entry,
            final(self).block.variables@ == old(self).block.variables@,
    {
        self.emit_instr(instr);
        self.stack.push(reg);
    }

    /// Pops the top register; on an empty stack the operand is missing.
    fn pop_reg(&mut self) -> (r: RegId)
        ensures
            final(self).label_map@ == old(self).label_map@,
            final(self).block == old(self).block,
            old(self).state().stack.len() == 0 ==> r == MISSING_REG && final(self).state() == old(self).state(),
            old(self).state().stack.len() > 0 ==> r == old(self).state().stack.last() && final(self).state()
                == drop_top(old(self).state(), 1),
    {
        match self.stack.pop() {
            Some(r) => {
                assert(self.stack@ =~= old(self).stack@.subrange(0, old(self).stack@.len() - 1));
                r
            },
            None => MISSING_REG,
        }
    }

    /// The registers of the top `count` stack slots, bottom first, popped.
    fn pop_regs(&mut self, count: usize) -> (r: Vec<RegId>)
        requires
            old(self).state().stack.len() >= count,
        ensures
            final(self).label_map@ == old(self).label_map@,
            final(self).block == old(self).block,
            final(self).state() == drop_top(old(self).state(), count as nat),
            r@ == old(self).state().stack.subrange(old(self).state().stack.len() - count, old(self).state().stack.len() as int),
    {
        let ghost st = self.stack@;
        let ghost n = st.len();
        let mut popped: Vec<RegId> = Vec::new();
        let mut k: usize = 0;
        while k < count
            invariant
                k <= count <= n,
                n == st.len(),
                self.stack@ == st.subrange(0, n - k),
                self.block == old(self).block,
                self.label_map@ == old(self).label_map@,
                popped@.len() == k,
                forall|j: int| 0 <= j < k ==> popped@[j] == st[n - 1 - j],
            decreases count - k,
        {
            let r = self.stack.pop();
            match r {
                Some(x) => {
                    popped.push(x);
                },
                None => {},
            }
            assert(self.stack@ =~= st.subrange(0, n - k - 1));
            k = k + 1;
        }
        let mut out: Vec<RegId> = Vec::new();
        let mut j: usize = count;
        while j > 0
            invariant
                j <= count,
                popped@.len() == count,
                count <= n,
                forall|t: int| 0 <= t < count ==> popped@[t] == st[n - 1 - t],
                out@.len() == count - j,
                forall|t: int| 0 <= t < count - j ==> out@[t] == st[n - count + t],
            decreases j,
        {
            j = j - 1;
            out.push(popped[j]);
        }
        assert(out@ =~= st.subrange(n - count, n as int));
        out
    }

    fn translate_instruction(&mut self, addr: usize, instruction: &OpCode) -> (r: Result<(), VMError>)
        requires
            old(self).wf(),
            old(self).state().next_reg < u32::MAX,
        ensures
            final(self).wf(),
            final(self).label_map@ == old(self).label_map@,
            final(self).state().next_reg <= old(self).state().next_reg + 1,
            match lower_step(old(self).state(), opcode_model(*instruction)) {
                Ok(st) => r is Ok && final(self).state() == st,
                Err(e) => r is Err && r->Err_0@ == e,
            },
    {
        match pushed_const_exec(instruction) {
            Some(v) => {
                let reg = self.block.alloc_register();
                self.emit_pushed(RegInstr::Mov(reg, RegValue::Const(v)), reg);
                return Ok(());
            },
            None => {},
        }
        if binary_instr_exec(instruction, 0, 0, 0).is_some() {
            let (dst, src1, src2) = self.pop_binary_op();
            match binary_instr_exec(instruction, dst, src1, src2) {
                Some(ins) => {
                    self.emit_pushed(ins, dst);
                },
                None => {},
            }
            return Ok(());
        }
        self.translate_other(addr, instruction)
    }

    fn translate_other(&mut self, addr: usize, instruction: &OpCode) -> (r: Result<(), VMError>)
        requires
            old(self).wf(),
            old(self).state().next_reg < u32::MAX,
            pushed_const(opcode_model(*instruction)) is None,
            binary_instr(opcode_model(*instruction), 0, 0, 0) is None,
        ensures
            final(self).wf(),
            final(self).label_map@ == old(self).label_map@,
            final(self).state().next_reg <= old(self).state().next_reg + 1,
            match lower_step(old(self).state(), opcode_model(*instruction)) {
                Ok(st) => r is Ok && final(self).state() == st,
                Err(e) => r is Err && r->Err_0@ == e,
            },
    {
        match instruction {
            OpCode::Not => {
                let src = self.pop_reg();
                let dst = self.block.alloc_register();
                self.emit_pushed(RegInstr::Not(dst, src), dst);
            },
            OpCode::Store(name) => {
                let src = self.pop_reg();
                self.emit_instr(RegInstr::Store(name.clone(), src));
            },
            OpCode::Load(name) => {
                let dst = self.block.alloc_register();
                self.emit_pushed(RegInstr::Load(dst, name.clone()), dst);
            },
            OpCode::Jmp(target) => {
                let ir_target = if *target < self.label_map.len() {
                    self.label_map[*target]
                } else {
                    *target
                };
                self.emit_instr(RegInstr::Jmp(ir_target));
            },
            OpCode::Jz(target) => {
                let condition = self.pop_reg();
                let ir_target = if *target < self.label_map.len() {
                    self.label_map[*target]
                } else {
                    *target
                };
                self.emit_instr(RegInstr::Jz(condition, ir_target));
            },
            OpCode::Call { addr: target, params: _ } => {
                let return_reg = self.block.alloc_register();
                let ghost none: Seq<u32> = Seq::empty();
                let args: Vec<RegId> = Vec::new();
                assert(args@ =~= none);
                self.emit_pushed(RegInstr::Call(Some(return_reg), *target, args), return_reg);
            },
            OpCode::Ret => {
                let return_value = self.stack.pop();
                proof {
                    if old(self).stack@.len() > 0 {
                        assert(self.stack@ =~= old(self).stack@.subrange(0, old(self).stack@.len() - 1));
                    }
                }
                self.emit_instr(RegInstr::Ret(return_value));
            },
            OpCode::Print => {
                let src = self.pop_reg();
                self.emit_instr(RegInstr::Print(src));
            },
            OpCode::Dup => {
                let src = match self.stack.peek() {
                    Some(x) => x,
                    None => MISSING_REG,
                };
                let dst = self.block.alloc_register();
                self.emit_pushed(RegInstr::Mov(dst, RegValue::Reg(src)), dst);
            },
            OpCode::MakeList(count) => {
                let depth = self.stack.depth();
                if depth < *count {
                    let _ = self.pop_regs(depth);
                    let mut elements: Vec<RegId> = Vec::new();
                    elements.push(MISSING_REG);
                    assert(elements@ =~= seq![MISSING_REG]);
                    let dst = self.block.alloc_register();
                    self.emit_pushed(RegInstr::MakeList(dst, elements), dst);
                } else {
                    let elements = self.pop_regs(*count);
                    let dst = self.block.alloc_register();
                    self.emit_pushed(RegInstr::MakeList(dst, elements), dst);
                }
            },
            OpCode::Len => {
                let src = self.pop_reg();
                let dst = self.block.alloc_register();
                self.emit_pushed(RegInstr::Len(dst, src), dst);
            },
            OpCode::Index => {
                let index = self.pop_reg();
                let container = self.pop_reg();
                let dst = self.block.alloc_register();
                self.emit_pushed(RegInstr::Index(dst, container, index), dst);
                proof {
                    let n = old(self).state().stack.len();
                    if n >= 2 {
                        assert(self.state().stack =~= drop_top(old(self).state(), 2).stack.push(dst));
                    } else {
                        assert(self.state().stack =~= drop_top(old(self).state(), n).stack.push(dst));
                    }
                }
            },
            OpCode::MakeObject => {
                let dst = self.block.alloc_register();
                self.emit_pushed(RegInstr::MakeObject(dst), dst);
            },
            OpCode::Spawn => {
                let src = self.pop_reg();
                let dst = self.block.alloc_register();
                self.emit_pushed(RegInstr::Spawn(dst, src), dst);
            },
            OpCode::Halt => {
                self.emit_instr(RegInstr::Halt);
            },
            _ => {
                self.emit_instr(RegInstr::Nop);
            },
        }
        Ok(())
    }

    fn pop_binary_op(&mut self) -> (r: (RegId, RegId, RegId))
        requires
            old(self).state().next_reg < u32::MAX,
        ensures
            final(self).label_map@ == old(self).label_map@,
            final(self).block.entry == old(self).block.entry,
            final(self).block.variables@ == old(self).block.variables@,
            ({
                let st = old(self).state();
                let n = st.stack.len();
                &&& r == (st.next_reg as u32, operand(st, 2, 0), operand(st, 2, 1))
                &&& final(self).state() == (LowerState {
                    instrs: st.instrs,
                    next_reg: st.next_reg + 1,
                    stack: st.stack.subrange(0, if n >= 2 { n - 2 } else { 0 }),
                })
            }),
    {
        let ghost st = self.state();
        let src2 = self.pop_reg();
        let src1 = self.pop_reg();
        let dst = self.block.alloc_register();
        let ghost n = st.stack.len();
        assert(self.stack@ =~= st.stack.subrange(0, if n >= 2 { n - 2 } else { 0 }));
        (dst, src1, src2)
    }
}

proof fn lemma_lower_error(ops: Seq<OpCodeModel>, i: int)
    requires
        0 <= i <= ops.len(),
        lower_prefix(ops.take(i)) is Err,
    ensures
        lower_prefix(ops) == lower_prefix(ops.take(i)),
    decreases ops.len() - i,
{
    if i < ops.len() {
        assert(ops.take(i + 1).drop_last() =~= ops.take(i));
        lemma_lower_error(ops, i + 1);
    } else {
        assert(ops.take(i) =~= ops);
    }
}


/// Lowering emits exactly one register instruction per bytecode instruction
/// (so a bytecode address is the index of its register instruction),
/// allocates at most one register per instruction, and every register on
/// the simulated stack has been allocated.
pub proof fn law_lower_shape(ops: Seq<OpCodeModel>)
    ensures
        lower_prefix(ops) matches Ok(st) ==> {
            &&& st.instrs.len() == ops.len()
            &&& st.next_reg <= ops.len()
            &&& forall|i: int| 0 <= i < st.stack.len() ==> st.stack[i] < st.next_reg
        },
    decreases ops.len(),
{
    if ops.len() > 0 {
        law_lower_shape(ops.drop_last());
        match lower_prefix(ops.drop_last()) {
            Ok(st) => {
                let n = st.stack.len();
                match lower_step(st, ops.last()) {
                    Ok(st2) => {
                        assert forall|i: int| 0 <= i < st2.stack.len() implies st2.stack[i] < st2.next_reg by {
                            if i < n && i < st2.stack.len() - 1 {
                                assert(st2.stack[i] == st.stack[i]);
                            }
                        }
                    },
                    Err(_) => {},
                }
            },
            Err(_) => {},
        }
    }
}

/// Lowering always succeeds: every program lowers.
pub proof fn law_lowering_always_succeeds(ops: Seq<OpCodeModel>)
    ensures
        lower_prefix(ops) is Ok,
    decreases ops.len(),
{
    if ops.len() > 0 {
        law_lowering_always_succeeds(ops.drop_last());
    }
}

} // verus!
