//! The register machine: executes a register block one instruction at a
//! time. Floating-point arithmetic and comparison, and printing, are done by
//! the host: a step hands them out as requests.
use vstd::prelude::*;
use vstd::utf8::encode_utf8;
use crate::concurrency::messages::{Message, MessageModel, messages_model};
use crate::ir::{RegBlock, RegInstr, RegInstrModel, RegValue, RegValueModel, RegId, instrs_model};
use crate::text::{append_chars, chars_of, i64_text, int_text, nat_text, string_of, u64_text};
use crate::vm::env::{env_get, env_insert, env_map, env_remove, env_wf};
use crate::vm::errors::{VMError, VMErrorModel};
use crate::vm::opcode::ProcId;
use crate::vm::machine::{same_kind_equal, same_kind_equal_exec, truth};
use crate::vm::value::{FloatOp, Value, ValueModel, copy_values, entries_model, is_float_zero, float_is_zero, values_model};

verus! {

/// A floating-point comparison done by the host.
#[derive(Clone, Copy, PartialEq, Eq, Structural, Debug)]
pub enum FloatTest {
    /// `|a - b| < f64::EPSILON`
    Eq,
    /// `|a - b| >= f64::EPSILON`
    Ne,
    Lt,
    Le,
    Gt,
    Ge,
}

/// The machine state that an instruction reads and writes.
pub struct RegState {
    pub registers: Seq<ValueModel>,
    pub variables: Map<Seq<char>, ValueModel>,
    pub ip: int,
    pub halted: bool,
    pub yielded: bool,
    pub mailbox: Seq<MessageModel>,
}

/// What a step asks of the host besides the state change.
pub enum EffectModel {
    /// Nothing: the step is complete.
    Done,
    /// Print the value; the step is complete.
    Print(ValueModel),
    /// Compute `a op b` on floats and complete the step with
    /// [`RegisterVM::complete_float`] into register `dst`.
    Float { op: FloatOp, a: u64, b: u64, dst: u32 },
    /// Compare floats (negated if `negate`) and complete the step with
    /// [`RegisterVM::complete_compare`] into register `dst`.
    Compare { test: FloatTest, negate: bool, a: u64, b: u64, dst: u32 },
    /// `i64::MIN / -1`: the machine aborts on it.
    DivideOverflow,
}

/// The error for a register number that the machine does not have.
pub open spec fn bad_register(r: u32) -> VMErrorModel {
    VMErrorModel::ParseError { line: 0, instruction: "Invalid register: r"@ + nat_text(r as nat) }
}

/// Reads register `r`.
pub open spec fn get_reg(s: RegState, r: u32) -> Result<ValueModel, VMErrorModel> {
    if r < s.registers.len() {
        Ok(s.registers[r as int])
    } else {
        Err(bad_register(r))
    }
}

/// `s` with the instruction pointer moved to the next instruction.
pub open spec fn next(s: RegState) -> RegState {
    RegState { ip: s.ip + 1, ..s }
}

/// Writes `v` to register `d` and moves on.
pub open spec fn put(s: RegState, d: u32, v: ValueModel) -> Result<(RegState, EffectModel), VMErrorModel> {
    if d < s.registers.len() {
        Ok((next(RegState { registers: s.registers.update(d as int, v), ..s }), EffectModel::Done))
    } else {
        Err(bad_register(d))
    }
}

/// Whether a value counts as false for `JZ`, `AND`, `OR` and `NOT`.
pub open spec fn is_falsy(v: ValueModel) -> bool {
    match v {
        ValueModel::Bool(b) => !b,
        ValueModel::Null => true,
        ValueModel::Int(n) => n == 0,
        ValueModel::Float(f) => is_float_zero(f),
        ValueModel::Str(s) => s.len() == 0,
        _ => false,
    }
}

/// Equality of values other than two floats (which the host compares):
/// as the stack machine compares values of one kind; values of different
/// kinds are unequal.
pub open spec fn plain_equal(a: ValueModel, b: ValueModel) -> bool {
    match same_kind_equal(a, b) {
        Some(e) => e,
        None => false,
    }
}

/// How a step fails: with a given error, or with a type mismatch whose
/// `expected` and `operation` are given (its description of the operands is
/// not specified).
pub enum Fail {
    Error(VMErrorModel),
    Mismatch(Seq<char>, Seq<char>),
}

/// What a step does: the next state and the request to the host, or the
/// failure.
pub type Outcome = Result<(RegState, EffectModel), Fail>;

/// `e` is the error that `f` describes.
pub open spec fn fails_with(e: VMErrorModel, f: Fail) -> bool {
    match f {
        Fail::Error(x) => e == x,
        Fail::Mismatch(x, o) => e matches VMErrorModel::TypeMismatch { expected, operation, .. } && expected == x
            && operation == o,
    }
}

/// Writes `v` to register `d` and moves on.
pub open spec fn put_step(s: RegState, d: u32, v: ValueModel) -> Outcome {
    match put(s, d, v) {
        Ok(r) => Ok(r),
        Err(e) => Err(Fail::Error(e)),
    }
}

/// An integer operation of the register machine.
#[derive(Clone, Copy, PartialEq, Eq, Structural, Debug)]
pub enum IntOp {
    Add,
    Sub,
    Mul,
    Div,
}

/// The operation name of an integer operation.
pub open spec fn int_op_name(op: IntOp) -> Seq<char> {
    match op {
        IntOp::Add => "ADD"@,
        IntOp::Sub => "SUB"@,
        IntOp::Mul => "MUL"@,
        IntOp::Div => "DIV"@,
    }
}

/// The operation name of a float operation.
pub open spec fn float_op_name(op: FloatOp) -> Seq<char> {
    match op {
        FloatOp::Add => "ADD_F"@,
        FloatOp::Sub => "SUB_F"@,
        FloatOp::Mul => "MUL_F"@,
        FloatOp::Div => "DIV_F"@,
    }
}

/// Reads two registers, the first one first.
pub open spec fn get2(s: RegState, a: u32, b: u32) -> Result<(ValueModel, ValueModel), Fail> {
    match get_reg(s, a) {
        Err(e) => Err(Fail::Error(e)),
        Ok(x) => match get_reg(s, b) {
            Err(e) => Err(Fail::Error(e)),
            Ok(y) => Ok((x, y)),
        },
    }
}

/// `d = a op b` on integers, with the release build's wrapping `+ - *`.
pub open spec fn int_step(s: RegState, op: IntOp, d: u32, a: u32, b: u32) -> Outcome {
    match get2(s, a, b) {
        Err(f) => Err(f),
        Ok((ValueModel::Int(x), ValueModel::Int(y))) => match op {
            IntOp::Add => put_step(s, d, ValueModel::Int(x.wrapping_add(y))),
            IntOp::Sub => put_step(s, d, ValueModel::Int(x.wrapping_sub(y))),
            IntOp::Mul => put_step(s, d, ValueModel::Int(x.wrapping_mul(y))),
            IntOp::Div => match x.checked_div(y) {
                Some(q) => put_step(s, d, ValueModel::Int(q)),
                None => if y == 0 {
                    Err(Fail::Error(VMErrorModel::RuntimeError("Division by zero"@)))
                } else {
                    Ok((s, EffectModel::DivideOverflow))
                },
            },
        },
        Ok(_) => Err(Fail::Mismatch("Int"@, int_op_name(op))),
    }
}

/// `d = a op b` on floats: handed to the host once the operands are known
/// to be floats (and, for a division, the divisor non-zero).
pub open spec fn float_step(s: RegState, op: FloatOp, d: u32, a: u32, b: u32) -> Outcome {
    match get2(s, a, b) {
        Err(f) => Err(f),
        Ok((ValueModel::Float(x), ValueModel::Float(y))) => if op == FloatOp::Div && is_float_zero(y) {
            Err(Fail::Error(VMErrorModel::RuntimeError("Division by zero"@)))
        } else if d < s.registers.len() {
            Ok((s, EffectModel::Float { op, a: x, b: y, dst: d }))
        } else {
            Err(Fail::Error(bad_register(d)))
        },
        Ok(_) => Err(Fail::Mismatch("Float"@, float_op_name(op))),
    }
}

/// An integer comparison.
#[derive(Clone, Copy, PartialEq, Eq, Structural, Debug)]
pub enum IntOrder {
    Lt,
    Le,
    Gt,
    Ge,
}

/// The result of an integer comparison.
pub open spec fn int_order(c: IntOrder, x: i64, y: i64) -> bool {
    match c {
        IntOrder::Lt => x < y,
        IntOrder::Le => x <= y,
        IntOrder::Gt => x > y,
        IntOrder::Ge => x >= y,
    }
}

/// `d = a < b` (and the like) on integers.
pub open spec fn int_order_step(s: RegState, c: IntOrder, d: u32, a: u32, b: u32) -> Outcome {
    match get2(s, a, b) {
        Err(f) => Err(f),
        Ok((ValueModel::Int(x), ValueModel::Int(y))) => put_step(s, d, truth(int_order(c, x, y))),
        Ok(_) => Err(Fail::Mismatch("Int"@, "comparison"@)),
    }
}

/// A float comparison: handed to the host.
pub open spec fn float_test_step(s: RegState, c: FloatTest, d: u32, a: u32, b: u32) -> Outcome {
    match get2(s, a, b) {
        Err(f) => Err(f),
        Ok((ValueModel::Float(x), ValueModel::Float(y))) => if d < s.registers.len() {
            Ok((s, EffectModel::Compare { test: c, negate: false, a: x, b: y, dst: d }))
        } else {
            Err(Fail::Error(bad_register(d)))
        },
        Ok(_) => Err(Fail::Mismatch("Float"@, "float comparison"@)),
    }
}

/// `d = (a == b)`, or its negation: two floats are compared by the host.
pub open spec fn eq_step(s: RegState, negate: bool, d: u32, a: u32, b: u32) -> Outcome {
    match get2(s, a, b) {
        Err(f) => Err(f),
        Ok((ValueModel::Float(x), ValueModel::Float(y))) => if d < s.registers.len() {
            Ok((s, EffectModel::Compare { test: FloatTest::Eq, negate, a: x, b: y, dst: d }))
        } else {
            Err(Fail::Error(bad_register(d)))
        },
        Ok((x, y)) => put_step(s, d, truth(plain_equal(x, y) != negate)),
    }
}

/// `d = a && b` or `d = a || b` on truthiness.
pub open spec fn logic_step(s: RegState, is_and: bool, d: u32, a: u32, b: u32) -> Outcome {
    match get2(s, a, b) {
        Err(f) => Err(f),
        Ok((x, y)) => put_step(
            s,
            d,
            ValueModel::Bool(
                if is_and {
                    !is_falsy(x) && !is_falsy(y)
                } else {
                    !is_falsy(x) || !is_falsy(y)
                },
            ),
        ),
    }
}


/// Reads the registers `rs`, in order; the first bad register fails.
pub open spec fn get_all(s: RegState, rs: Seq<u32>) -> Result<Seq<ValueModel>, VMErrorModel>
    decreases rs.len(),
{
    if rs.len() == 0 {
        Ok(Seq::empty())
    } else {
        match get_all(s, rs.drop_last()) {
            Err(e) => Err(e),
            Ok(vs) => match get_reg(s, rs.last()) {
                Err(e) => Err(e),
                Ok(v) => Ok(vs.push(v)),
            },
        }
    }
}

/// The value a received message becomes.
pub open spec fn message_value(m: MessageModel) -> ValueModel {
    match m {
        MessageModel::Value(v) => v,
        MessageModel::Signal(s) => ValueModel::Str(s),
        MessageModel::Exit(p) => ValueModel::Str("EXIT:"@ + nat_text(p as nat)),
        MessageModel::Down(p, r, why) => ValueModel::Str("DOWN:"@ + nat_text(p as nat) + " "@ + r + " "@ + why),
        MessageModel::Link(p) => ValueModel::Str("LINK:"@ + nat_text(p as nat)),
        MessageModel::Monitor(p, r) => ValueModel::Str("MONITOR:"@ + nat_text(p as nat) + " "@ + r),
        MessageModel::Unlink(p) => ValueModel::Str("UNLINK:"@ + nat_text(p as nat)),
        MessageModel::TrapExit(b) => ValueModel::Bool(b),
    }
}

/// Reads a register that must hold a process identifier (an integer).
pub open spec fn get_pid(s: RegState, r: u32) -> Result<i64, Fail> {
    match get_reg(s, r) {
        Err(e) => Err(Fail::Error(e)),
        Ok(ValueModel::Int(p)) => Ok(p),
        Ok(_) => Err(Fail::Error(VMErrorModel::TypeError("PID must be integer"@))),
    }
}

/// The data and control instructions.
pub open spec fn data_step(s: RegState, instr: RegInstrModel) -> Outcome {
    match instr {
        RegInstrModel::Mov(d, RegValueModel::Const(v)) => put_step(s, d, v),
        RegInstrModel::Mov(d, RegValueModel::Reg(r)) => match get_reg(s, r) {
            Err(e) => Err(Fail::Error(e)),
            Ok(v) => put_step(s, d, v),
        },
        RegInstrModel::Concat(d, a, b) => match get2(s, a, b) {
            Err(f) => Err(f),
            Ok((ValueModel::Str(x), ValueModel::Str(y))) => put_step(s, d, ValueModel::Str(x + y)),
            Ok(_) => Err(Fail::Mismatch("String"@, "CONCAT"@)),
        },
        RegInstrModel::Load(d, name) => put_step(
            s,
            d,
            if s.variables.contains_key(name) {
                s.variables[name]
            } else {
                ValueModel::Null
            },
        ),
        RegInstrModel::Store(name, r) => match get_reg(s, r) {
            Err(e) => Err(Fail::Error(e)),
            Ok(v) => Ok((next(RegState { variables: s.variables.insert(name, v), ..s }), EffectModel::Done)),
        },
        RegInstrModel::Delete(name) => Ok(
            (next(RegState { variables: s.variables.remove(name), ..s }), EffectModel::Done),
        ),
        RegInstrModel::Jmp(t) => Ok((RegState { ip: t as int, ..s }, EffectModel::Done)),
        RegInstrModel::Jz(c, t) => match get_reg(s, c) {
            Err(e) => Err(Fail::Error(e)),
            Ok(v) => if is_falsy(v) {
                Ok((RegState { ip: t as int, ..s }, EffectModel::Done))
            } else {
                Ok((next(s), EffectModel::Done))
            },
        },
        RegInstrModel::Print(r) => match get_reg(s, r) {
            Err(e) => Err(Fail::Error(e)),
            Ok(v) => Ok((next(s), EffectModel::Print(v))),
        },
        RegInstrModel::MakeList(d, rs) => match get_all(s, rs) {
            Err(e) => Err(Fail::Error(e)),
            Ok(vs) => put_step(s, d, ValueModel::List(vs)),
        },
        RegInstrModel::Len(d, r) => match get_reg(s, r) {
            Err(e) => Err(Fail::Error(e)),
            Ok(ValueModel::List(l)) => put_step(s, d, ValueModel::Int(l.len() as i64)),
            Ok(ValueModel::Str(t)) => put_step(s, d, ValueModel::Int((encode_utf8(t).len() as usize) as i64)),
            Ok(_) => Err(Fail::Mismatch("List or String"@, "LEN"@)),
        },
        RegInstrModel::Index(d, c, i) => match get2(s, c, i) {
            Err(f) => Err(f),
            Ok((ValueModel::List(l), ValueModel::Int(k))) => if (k as usize) < l.len() {
                put_step(s, d, l[(k as usize) as int])
            } else {
                Err(Fail::Error(VMErrorModel::IndexOutOfBounds { index: k as usize, length: l.len() as usize }))
            },
            Ok(_) => Err(Fail::Mismatch("List and Int"@, "INDEX"@)),
        },
        RegInstrModel::MakeObject(d) => put_step(s, d, ValueModel::Object(Seq::empty())),
        RegInstrModel::Halt => Ok((RegState { halted: true, ..s }, EffectModel::Done)),
        RegInstrModel::Ret(_) => Ok((RegState { halted: true, ..s }, EffectModel::Done)),
        RegInstrModel::Call(Some(r), _, _) => put_step(s, r, ValueModel::Null),
        RegInstrModel::True(d) => put_step(s, d, ValueModel::Bool(true)),
        RegInstrModel::False(d) => put_step(s, d, ValueModel::Bool(false)),
        RegInstrModel::Null(d) => put_step(s, d, ValueModel::Null),
        _ => Ok((next(s), EffectModel::Done)),
    }
}

/// The process instructions; `pid` is the machine's own process, if any.
pub open spec fn proc_step(s: RegState, instr: RegInstrModel, pid: Option<u64>) -> Outcome {
    match instr {
        RegInstrModel::Spawn(d, _) => put_step(s, d, ValueModel::Int((1000 + s.registers.len()) as i64)),
        RegInstrModel::Receive(d) => if s.mailbox.len() == 0 {
            Ok((RegState { yielded: true, ..s }, EffectModel::Done))
        } else {
            put_step(
                RegState { mailbox: s.mailbox.drop_first(), ..s },
                d,
                message_value(s.mailbox[0]),
            )
        },
        RegInstrModel::Send(t, m) => match get_pid(s, t) {
            Err(f) => Err(f),
            Ok(_) => match get_reg(s, m) {
                Err(e) => Err(Fail::Error(e)),
                Ok(_) => Ok((next(s), EffectModel::Done)),
            },
        },
        RegInstrModel::Yield => Ok((next(RegState { yielded: true, ..s }), EffectModel::Done)),
        RegInstrModel::Monitor(d, t) => match get_pid(s, t) {
            Err(f) => Err(f),
            Ok(_) => put_step(s, d, ValueModel::Str("ref_"@ + nat_text(s.ip as nat))),
        },
        RegInstrModel::Link(t) => match get_pid(s, t) {
            Err(f) => Err(f),
            Ok(_) => Ok((next(s), EffectModel::Done)),
        },
        RegInstrModel::Unlink(t) => match get_pid(s, t) {
            Err(f) => Err(f),
            Ok(_) => Ok((next(s), EffectModel::Done)),
        },
        RegInstrModel::Register(_, r) => match pid {
            Some(p) => put_step(s, r, ValueModel::Int(p as i64)),
            None => Ok((next(s), EffectModel::Done)),
        },
        RegInstrModel::Whereis(d, _) => put_step(s, d, ValueModel::Int(0)),
        _ => Ok((next(s), EffectModel::Done)),
    }
}

/// Whether an instruction is one of the process instructions.
pub open spec fn is_proc_instr(instr: RegInstrModel) -> bool {
    ||| instr is Spawn
    ||| instr is Receive
    ||| instr is Send
    ||| instr is Yield
    ||| instr is Monitor
    ||| instr is Link
    ||| instr is Unlink
    ||| instr is Register
    ||| instr is Whereis
}

/// The arithmetic, comparison and logic instructions.
pub open spec fn arith_step(s: RegState, instr: RegInstrModel) -> Outcome {
    match instr {
        RegInstrModel::Add(d, a, b) => int_step(s, IntOp::Add, d, a, b),
        RegInstrModel::Sub(d, a, b) => int_step(s, IntOp::Sub, d, a, b),
        RegInstrModel::Mul(d, a, b) => int_step(s, IntOp::Mul, d, a, b),
        RegInstrModel::Div(d, a, b) => int_step(s, IntOp::Div, d, a, b),
        RegInstrModel::AddF(d, a, b) => float_step(s, FloatOp::Add, d, a, b),
        RegInstrModel::SubF(d, a, b) => float_step(s, FloatOp::Sub, d, a, b),
        RegInstrModel::MulF(d, a, b) => float_step(s, FloatOp::Mul, d, a, b),
        RegInstrModel::DivF(d, a, b) => float_step(s, FloatOp::Div, d, a, b),
        RegInstrModel::Eq(d, a, b) => eq_step(s, false, d, a, b),
        RegInstrModel::Ne(d, a, b) => eq_step(s, true, d, a, b),
        RegInstrModel::Lt(d, a, b) => int_order_step(s, IntOrder::Lt, d, a, b),
        RegInstrModel::Le(d, a, b) => int_order_step(s, IntOrder::Le, d, a, b),
        RegInstrModel::Gt(d, a, b) => int_order_step(s, IntOrder::Gt, d, a, b),
        RegInstrModel::Ge(d, a, b) => int_order_step(s, IntOrder::Ge, d, a, b),
        RegInstrModel::EqF(d, a, b) => float_test_step(s, FloatTest::Eq, d, a, b),
        RegInstrModel::NeF(d, a, b) => float_test_step(s, FloatTest::Ne, d, a, b),
        RegInstrModel::LtF(d, a, b) => float_test_step(s, FloatTest::Lt, d, a, b),
        RegInstrModel::LeF(d, a, b) => float_test_step(s, FloatTest::Le, d, a, b),
        RegInstrModel::GtF(d, a, b) => float_test_step(s, FloatTest::Gt, d, a, b),
        RegInstrModel::GeF(d, a, b) => float_test_step(s, FloatTest::Ge, d, a, b),
        RegInstrModel::And(d, a, b) => logic_step(s, true, d, a, b),
        RegInstrModel::Or(d, a, b) => logic_step(s, false, d, a, b),
        RegInstrModel::Not(d, a) => match get_reg(s, a) {
            Err(e) => Err(Fail::Error(e)),
            Ok(v) => put_step(s, d, ValueModel::Bool(is_falsy(v))),
        },
        _ => Ok((next(s), EffectModel::Done)),
    }
}

/// Whether an instruction is an arithmetic, comparison or logic one.
pub open spec fn is_arith_instr(i: RegInstrModel) -> bool {
    ||| i is Add || i is Sub || i is Mul || i is Div
    ||| i is AddF || i is SubF || i is MulF || i is DivF
    ||| i is Eq || i is Ne || i is Lt || i is Le || i is Gt || i is Ge
    ||| i is EqF || i is NeF || i is LtF || i is LeF || i is GtF || i is GeF
    ||| i is And || i is Or || i is Not
}

/// One instruction of the register machine; `pid` is the machine's own
/// process, if any.
pub open spec fn reg_exec(s: RegState, instr: RegInstrModel, pid: Option<u64>) -> Outcome {
    if is_arith_instr(instr) {
        arith_step(s, instr)
    } else if is_proc_instr(instr) {
        proc_step(s, instr, pid)
    } else {
        data_step(s, instr)
    }
}



/// What a step asks of the host (see [`EffectModel`]).
#[derive(Debug, PartialEq)]
pub enum Effect {
    Done,
    Print(Value),
    Float { op: FloatOp, a: u64, b: u64, dst: RegId },
    Compare { test: FloatTest, negate: bool, a: u64, b: u64, dst: RegId },
    DivideOverflow,
}

impl View for Effect {
    type V = EffectModel;

    open spec fn view(&self) -> EffectModel {
        match self {
            Effect::Done => EffectModel::Done,
            Effect::Print(v) => EffectModel::Print(v@),
            Effect::Float { op, a, b, dst } => EffectModel::Float { op: *op, a: *a, b: *b, dst: *dst },
            Effect::Compare { test, negate, a, b, dst } => EffectModel::Compare {
                test: *test,
                negate: *negate,
                a: *a,
                b: *b,
                dst: *dst,
            },
            Effect::DivideOverflow => EffectModel::DivideOverflow,
        }
    }
}

/// The name of a value's type, for error messages.
pub fn kind_name(v: &Value) -> (r: &'static str)
    ensures
        r@ == crate::vm::machine::kind_text(v@),
{
    match v {
        Value::Int(_) => "Int",
        Value::Float(_) => "Float",
        Value::Str(_) => "Str",
        Value::Bool(_) => "Bool",
        Value::Null => "Null",
        Value::List(_) => "List",
        Value::Object(_) => "Object",
        Value::Bytes(_) => "Bytes",
        Value::Connection(_) => "Connection",
        Value::Stream(_) => "Stream",
        Value::Future(_) => "Future",
        Value::Function { .. } => "Function",
        Value::Closure { .. } => "Closure",
        Value::Exception { .. } => "Exception",
    }
}

/// A type mismatch error naming the operands' types.
pub fn mismatch2(expected: &str, operation: &str, a: &Value, b: &Value) -> (e: VMError)
    ensures
        fails_with(e@, Fail::Mismatch(expected@, operation@)),
{
    let mut got = chars_of(kind_name(a));
    let sep = chars_of(" and ");
    append_chars(&mut got, sep.as_slice());
    let tb = chars_of(kind_name(b));
    append_chars(&mut got, tb.as_slice());
    VMError::TypeMismatch { expected: expected.to_owned(), got: string_of(got.as_slice()), operation: operation.to_owned() }
}

/// A type mismatch error naming the operand's type.
pub fn mismatch1(expected: &str, operation: &str, a: &Value) -> (e: VMError)
    ensures
        fails_with(e@, Fail::Mismatch(expected@, operation@)),
{
    VMError::TypeMismatch { expected: expected.to_owned(), got: kind_name(a).to_owned(), operation: operation.to_owned() }
}

/// The error for a register number that the machine does not have.
pub fn bad_register_error(r: RegId) -> (e: VMError)
    ensures
        e@ == bad_register(r),
{
    let mut t = chars_of("Invalid register: r");
    let digits = u64_text(r as u64);
    append_chars(&mut t, digits.as_slice());
    VMError::ParseError { line: 0, instruction: string_of(t.as_slice()) }
}

/// The register machine.
pub struct RegisterVM {
    pub registers: Vec<Value>,
    pub variables: Vec<(String, Value)>,
    pub ip: usize,
    pub block: RegBlock,
    pub halted: bool,
    pub process_id: Option<ProcId>,
    pub mailbox: Vec<Message>,
    pub yielded: bool,
}

impl RegisterVM {
    /// The state that instructions read and write.
    pub open spec fn state(&self) -> RegState {
        RegState {
            registers: values_model(self.registers@),
            variables: env_map(self.variables@),
            ip: self.ip as int,
            halted: self.halted,
            yielded: self.yielded,
            mailbox: messages_model(self.mailbox@),
        }
    }

    /// The variable table names each variable once.
    pub open spec fn wf(&self) -> bool {
        &&& env_wf(self.variables@)
        &&& self.registers@.len() <= u32::MAX
    }

    /// A machine for `block`: one `Null` register per allocated register,
    /// no variables, at the block's entry point.
    pub fn new(block: RegBlock) -> (vm: RegisterVM)
        ensures
            vm.wf(),
            vm.block == block,
            vm.state() == (RegState {
                registers: Seq::new(block.register_count as nat, |i: int| ValueModel::Null),
                variables: Map::empty(),
                ip: block.entry as int,
                halted: false,
                yielded: false,
                mailbox: Seq::empty(),
            }),
            vm.process_id is None,
    {
        let n = block.register_count as usize;
        let mut registers: Vec<Value> = Vec::new();
        let mut i: usize = 0;
        while i < n
            invariant
                i <= n,
                registers@.len() == i,
                forall|j: int| 0 <= j < i ==> registers@[j] == Value::Null,
            decreases n - i,
        {
            registers.push(Value::Null);
            i = i + 1;
        }
        let entry = block.entry;
        let vm = RegisterVM {
            registers,
            variables: Vec::new(),
            ip: entry,
            block,
            halted: false,
            process_id: None,
            mailbox: Vec::new(),
            yielded: false,
        };
        assert(values_model(vm.registers@) =~= Seq::new(n as nat, |i: int| ValueModel::Null));
        assert(env_map(vm.variables@) =~= Map::<Seq<char>, ValueModel>::empty());
        assert(messages_model(vm.mailbox@) =~= Seq::<MessageModel>::empty());
        vm
    }

    /// Puts a message in the mailbox.
    pub fn add_message(&mut self, message: Message)
        ensures
            final(self).mailbox@ == old(self).mailbox@.push(message),
            final(self).registers@ == old(self).registers@,
            final(self).variables@ == old(self).variables@,
            final(self).ip == old(self).ip,
            final(self).block == old(self).block,
            final(self).halted == old(self).halted,
            final(self).yielded == old(self).yielded,
            final(self).process_id == old(self).process_id,
    {
        self.mailbox.push(message);
    }

    /// Whether the mailbox holds a message.
    pub fn has_messages(&self) -> (b: bool)
        ensures
            b == (self.mailbox@.len() > 0),
    {
        self.mailbox.len() > 0
    }

    /// Whether the machine has halted.
    pub fn is_halted(&self) -> (b: bool)
        ensures
            b == self.halted,
    {
        self.halted
    }

    /// Whether the machine has yielded.
    pub fn is_yielded(&self) -> (b: bool)
        ensures
            b == self.yielded,
    {
        self.yielded
    }

    /// Whether the run loop goes on: not halted, not yielded, and an
    /// instruction at the instruction pointer.
    pub fn can_step(&self) -> (b: bool)
        ensures
            b == (!self.halted && !self.yielded && self.ip < self.block.instructions@.len()),
    {
        !self.halted && !self.yielded && self.ip < self.block.instructions.len()
    }

    /// The value of register 0, if there is one: the result of a run.
    pub fn result(&self) -> (r: Option<Value>)
        ensures
            self.registers@.len() == 0 ==> r is None,
            self.registers@.len() > 0 ==> r is Some && r->Some_0@ == self.registers@[0]@,
    {
        if self.registers.len() == 0 {
            None
        } else {
            Some(self.registers[0].copy())
        }
    }

    fn get_register(&self, r: RegId) -> (v: Result<Value, VMError>)
        ensures
            match get_reg(self.state(), r) {
                Ok(x) => v is Ok && v->Ok_0@ == x,
                Err(e) => v is Err && v->Err_0@ == e,
            },
    {
        if (r as usize) < self.registers.len() {
            Ok(self.registers[r as usize].copy())
        } else {
            Err(bad_register_error(r))
        }
    }

    fn put(&mut self, d: RegId, v: Value) -> (r: Result<Effect, VMError>)
        requires
            old(self).ip < usize::MAX,
        ensures
            final(self).wf() == old(self).wf(),
            final(self).block == old(self).block,
            final(self).process_id == old(self).process_id,
            match put_step(old(self).state(), d, v@) {
                Ok((st, eff)) => r is Ok && final(self).state() == st && r->Ok_0@ == eff,
                Err(f) => r is Err && fails_with(r->Err_0@, f) && final(self).state() == old(self).state(),
            },
    {
        if (d as usize) < self.registers.len() {
            let ghost before = values_model(self.registers@);
            self.registers.set(d as usize, v);
            assert(values_model(self.registers@) =~= before.update(d as int, v@));
            self.ip = self.ip + 1;
            Ok(Effect::Done)
        } else {
            Err(bad_register_error(d))
        }
    }

    /// Completes a float request: writes the host's result to `dst` and
    /// moves on.
    pub fn complete_float(&mut self, dst: RegId, bits: u64)
        requires
            (dst as int) < old(self).registers@.len(),
            old(self).ip < usize::MAX,
        ensures
            final(self).wf() == old(self).wf(),
            final(self).block == old(self).block,
            final(self).process_id == old(self).process_id,
            final(self).state() == next(
                RegState {
                    registers: old(self).state().registers.update(dst as int, ValueModel::Float(bits)),
                    ..old(self).state()
                },
            ),
    {
        let _ = self.put(dst, Value::Float(bits));
    }

    /// Completes a comparison request: writes the host's answer to `dst` as 1 or 0
    /// and moves on.
    pub fn complete_compare(&mut self, dst: RegId, result: bool)
        requires
            (dst as int) < old(self).registers@.len(),
            old(self).ip < usize::MAX,
        ensures
            final(self).wf() == old(self).wf(),
            final(self).block == old(self).block,
            final(self).process_id == old(self).process_id,
            final(self).state() == next(
                RegState {
                    registers: old(self).state().registers.update(dst as int, truth(result)),
                    ..old(self).state()
                },
            ),
    {
        let _ = self.put(dst, Value::Int(if result { 1 } else { 0 }));
    }
}


/// `r` is what outcome `o` describes, `st` the state after the step; a
/// failing step leaves the state `failed`.
pub open spec fn step_ok(r: Result<Effect, VMError>, st: RegState, o: Outcome, failed: RegState) -> bool {
    match o {
        Ok((next_state, eff)) => r is Ok && st == next_state && r->Ok_0@ == eff,
        Err(f) => r is Err && fails_with(r->Err_0@, f) && st == failed,
    }
}

/// The state that a failing instruction leaves: a `RECEIVE` has taken the
/// oldest message out of the mailbox before it fails to write it; any other
/// instruction changes nothing.
pub open spec fn failed_state(s: RegState, instr: RegInstrModel) -> RegState {
    if instr is Receive && s.mailbox.len() > 0 {
        RegState { mailbox: s.mailbox.drop_first(), ..s }
    } else {
        s
    }
}

/// A step keeps the block, the process identifier and well-formedness.
pub open spec fn frame(a: RegisterVM, b: RegisterVM) -> bool {
    &&& a.wf() ==> b.wf()
    &&& b.block == a.block
    &&& b.process_id == a.process_id
}

fn int_op_label(op: IntOp) -> (r: &'static str)
    ensures
        r@ == int_op_name(op),
{
    match op {
        IntOp::Add => "ADD",
        IntOp::Sub => "SUB",
        IntOp::Mul => "MUL",
        IntOp::Div => "DIV",
    }
}

fn float_op_label(op: FloatOp) -> (r: &'static str)
    ensures
        r@ == float_op_name(op),
{
    match op {
        FloatOp::Add => "ADD_F",
        FloatOp::Sub => "SUB_F",
        FloatOp::Mul => "MUL_F",
        FloatOp::Div => "DIV_F",
    }
}

fn int_order_exec(c: IntOrder, x: i64, y: i64) -> (b: bool)
    ensures
        b == int_order(c, x, y),
{
    match c {
        IntOrder::Lt => x < y,
        IntOrder::Le => x <= y,
        IntOrder::Gt => x > y,
        IntOrder::Ge => x >= y,
    }
}

/// Whether a value counts as false.
pub fn falsy(v: &Value) -> (b: bool)
    ensures
        b == is_falsy(v@),
{
    match v {
        Value::Bool(b) => !*b,
        Value::Null => true,
        Value::Int(n) => *n == 0,
        Value::Float(f) => float_is_zero(*f),
        Value::Str(s) => s.as_str().is_empty(),
        _ => false,
    }
}

fn plain_equal_exec(a: &Value, b: &Value) -> (r: bool)
    ensures
        r == plain_equal(a@, b@),
{
    match same_kind_equal_exec(a, b) {
        Some(e) => e,
        None => false,
    }
}

impl RegisterVM {
    fn get2(&self, a: RegId, b: RegId) -> (r: Result<(Value, Value), VMError>)
        ensures
            match get2(self.state(), a, b) {
                Ok((x, y)) => r is Ok && r->Ok_0.0@ == x && r->Ok_0.1@ == y,
                Err(f) => r is Err && fails_with(r->Err_0@, f),
            },
    {
        let x = match self.get_register(a) {
            Ok(v) => v,
            Err(e) => {
                return Err(e);
            },
        };
        let y = match self.get_register(b) {
            Ok(v) => v,
            Err(e) => {
                return Err(e);
            },
        };
        Ok((x, y))
    }

    fn exec_int(&mut self, op: IntOp, d: RegId, a: RegId, b: RegId) -> (r: Result<Effect, VMError>)
        requires
            old(self).ip < usize::MAX,
        ensures
            frame(*old(self), *final(self)),
            step_ok(r, final(self).state(), int_step(old(self).state(), op, d, a, b), old(self).state()),
    {
        let (x, y) = match self.get2(a, b) {
            Ok(p) => p,
            Err(e) => {
                return Err(e);
            },
        };
        match (&x, &y) {
            (Value::Int(p), Value::Int(q)) => match op {
                IntOp::Add => self.put(d, Value::Int(p.wrapping_add(*q))),
                IntOp::Sub => self.put(d, Value::Int(p.wrapping_sub(*q))),
                IntOp::Mul => self.put(d, Value::Int(p.wrapping_mul(*q))),
                IntOp::Div => match p.checked_div(*q) {
                    Some(z) => self.put(d, Value::Int(z)),
                    None => {
                        if *q == 0 {
                            Err(VMError::RuntimeError("Division by zero".to_owned()))
                        } else {
                            Ok(Effect::DivideOverflow)
                        }
                    },
                },
            },
            _ => Err(mismatch2("Int", int_op_label(op), &x, &y)),
        }
    }

    fn exec_float(&mut self, op: FloatOp, d: RegId, a: RegId, b: RegId) -> (r: Result<Effect, VMError>)
        requires
            old(self).ip < usize::MAX,
        ensures
            frame(*old(self), *final(self)),
            step_ok(r, final(self).state(), float_step(old(self).state(), op, d, a, b), old(self).state()),
    {
        let (x, y) = match self.get2(a, b) {
            Ok(p) => p,
            Err(e) => {
                return Err(e);
            },
        };
        match (&x, &y) {
            (Value::Float(p), Value::Float(q)) => {
                if matches!(op, FloatOp::Div) && float_is_zero(*q) {
                    Err(VMError::RuntimeError("Division by zero".to_owned()))
                } else if (d as usize) < self.registers.len() {
                    Ok(Effect::Float { op, a: *p, b: *q, dst: d })
                } else {
                    Err(bad_register_error(d))
                }
            },
            _ => Err(mismatch2("Float", float_op_label(op), &x, &y)),
        }
    }

    fn exec_int_order(&mut self, c: IntOrder, d: RegId, a: RegId, b: RegId) -> (r: Result<Effect, VMError>)
        requires
            old(self).ip < usize::MAX,
        ensures
            frame(*old(self), *final(self)),
            step_ok(r, final(self).state(), int_order_step(old(self).state(), c, d, a, b), old(self).state()),
    {
        let (x, y) = match self.get2(a, b) {
            Ok(p) => p,
            Err(e) => {
                return Err(e);
            },
        };
        match (&x, &y) {
            (Value::Int(p), Value::Int(q)) => self.put(d, Value::Int(if int_order_exec(c, *p, *q) { 1 } else { 0 })),
            _ => Err(mismatch2("Int", "comparison", &x, &y)),
        }
    }

    fn exec_float_test(&mut self, c: FloatTest, d: RegId, a: RegId, b: RegId) -> (r: Result<Effect, VMError>)
        requires
            old(self).ip < usize::MAX,
        ensures
            frame(*old(self), *final(self)),
            step_ok(r, final(self).state(), float_test_step(old(self).state(), c, d, a, b), old(self).state()),
    {
        let (x, y) = match self.get2(a, b) {
            Ok(p) => p,
            Err(e) => {
                return Err(e);
            },
        };
        match (&x, &y) {
            (Value::Float(p), Value::Float(q)) => {
                if (d as usize) < self.registers.len() {
                    Ok(Effect::Compare { test: c, negate: false, a: *p, b: *q, dst: d })
                } else {
                    Err(bad_register_error(d))
                }
            },
            _ => Err(mismatch2("Float", "float comparison", &x, &y)),
        }
    }

    fn exec_eq(&mut self, negate: bool, d: RegId, a: RegId, b: RegId) -> (r: Result<Effect, VMError>)
        requires
            old(self).ip < usize::MAX,
        ensures
            frame(*old(self), *final(self)),
            step_ok(r, final(self).state(), eq_step(old(self).state(), negate, d, a, b), old(self).state()),
    {
        let (x, y) = match self.get2(a, b) {
            Ok(p) => p,
            Err(e) => {
                return Err(e);
            },
        };
        match (&x, &y) {
            (Value::Float(p), Value::Float(q)) => {
                if (d as usize) < self.registers.len() {
                    Ok(Effect::Compare { test: FloatTest::Eq, negate, a: *p, b: *q, dst: d })
                } else {
                    Err(bad_register_error(d))
                }
            },
            _ => {
                let e = plain_equal_exec(&x, &y);
                self.put(d, Value::Int(if e != negate { 1 } else { 0 }))
            },
        }
    }

    fn exec_logic(&mut self, is_and: bool, d: RegId, a: RegId, b: RegId) -> (r: Result<Effect, VMError>)
        requires
            old(self).ip < usize::MAX,
        ensures
            frame(*old(self), *final(self)),
            step_ok(r, final(self).state(), logic_step(old(self).state(), is_and, d, a, b), old(self).state()),
    {
        let (x, y) = match self.get2(a, b) {
            Ok(p) => p,
            Err(e) => {
                return Err(e);
            },
        };
        let tx = !falsy(&x);
        let ty = !falsy(&y);
        self.put(d, Value::Bool(if is_and { tx && ty } else { tx || ty }))
    }
}


impl RegisterVM {
    fn get_all(&self, rs: &Vec<RegId>) -> (r: Result<Vec<Value>, VMError>)
        ensures
            match get_all(self.state(), rs@) {
                Ok(vs) => r is Ok && values_model(r->Ok_0@) == vs,
                Err(e) => r is Err && r->Err_0@ == e,
            },
    {
        let mut out: Vec<Value> = Vec::new();
        let mut i: usize = 0;
        assert(rs@.take(0) =~= Seq::<u32>::empty());
        assert(values_model(out@) =~= Seq::<ValueModel>::empty());
        while i < rs.len()
            invariant
                i <= rs@.len(),
                get_all(self.state(), rs@.take(i as int)) == Ok::<Seq<ValueModel>, VMErrorModel>(values_model(out@)),
            decreases rs.len() - i,
        {
            assert(rs@.take(i + 1).drop_last() =~= rs@.take(i as int));
            assert(rs@.take(i + 1).last() == rs@[i as int]);
            match self.get_register(rs[i]) {
                Ok(v) => {
                    let ghost before = values_model(out@);
                    out.push(v);
                    assert(values_model(out@) =~= before.push(v@));
                },
                Err(e) => {
                    proof {
                        lemma_get_all_error(self.state(), rs@, i as int + 1);
                    }
                    return Err(e);
                },
            }
            i = i + 1;
        }
        assert(rs@.take(rs@.len() as int) =~= rs@);
        Ok(out)
    }

    #[verifier::rlimit(40)]
    fn exec_data(&mut self, instr: &RegInstr) -> (r: Result<Effect, VMError>)
        requires
            old(self).wf(),
            old(self).ip < usize::MAX,
        ensures
            frame(*old(self), *final(self)),
            step_ok(r, final(self).state(), data_step(old(self).state(), instr@), old(self).state()),
    {
        match instr {
            RegInstr::Mov(d, RegValue::Const(v)) => self.put(*d, v.copy()),
            RegInstr::Mov(d, RegValue::Reg(src)) => match self.get_register(*src) {
                Ok(v) => self.put(*d, v),
                Err(e) => Err(e),
            },
            RegInstr::Concat(d, a, b) => {
                let (x, y) = match self.get2(*a, *b) {
                    Ok(p) => p,
                    Err(e) => {
                        return Err(e);
                    },
                };
                match (&x, &y) {
                    (Value::Str(p), Value::Str(q)) => {
                        let mut c = chars_of(p.as_str());
                        let t = chars_of(q.as_str());
                        append_chars(&mut c, t.as_slice());
                        self.put(*d, Value::Str(string_of(c.as_slice())))
                    },
                    _ => Err(mismatch2("String", "CONCAT", &x, &y)),
                }
            },
            RegInstr::Load(d, name) => match env_get(&self.variables, name.as_str()) {
                Some(v) => self.put(*d, v),
                None => self.put(*d, Value::Null),
            },
            RegInstr::Store(name, src) => match self.get_register(*src) {
                Ok(v) => {
                    let ghost vm = v@;
                    env_insert(&mut self.variables, name.clone(), v);
                    self.ip = self.ip + 1;
                    assert(self.state().variables == old(self).state().variables.insert(name@, vm));
                    assert(self.state() == next(RegState { variables: old(self).state().variables.insert(name@, vm), ..old(self).state() }));
                    Ok(Effect::Done)
                },
                Err(e) => Err(e),
            },
            RegInstr::Delete(name) => {
                let _ = env_remove(&mut self.variables, name.as_str());
                self.ip = self.ip + 1;
                assert(self.state() == next(RegState { variables: old(self).state().variables.remove(name@), ..old(self).state() }));
                Ok(Effect::Done)
            },
            RegInstr::Jmp(t) => {
                self.ip = *t;
                Ok(Effect::Done)
            },
            RegInstr::Jz(c, t) => match self.get_register(*c) {
                Ok(v) => {
                    if falsy(&v) {
                        self.ip = *t;
                    } else {
                        self.ip = self.ip + 1;
                    }
                    Ok(Effect::Done)
                },
                Err(e) => Err(e),
            },
            RegInstr::Print(src) => match self.get_register(*src) {
                Ok(v) => {
                    self.ip = self.ip + 1;
                    Ok(Effect::Print(v))
                },
                Err(e) => Err(e),
            },
            _ => self.exec_data_more(instr),
        }
    }

    #[verifier::rlimit(40)]
    fn exec_data_more(&mut self, instr: &RegInstr) -> (r: Result<Effect, VMError>)
        requires
            old(self).wf(),
            old(self).ip < usize::MAX,
            !(instr@ is Mov || instr@ is Concat || instr@ is Load || instr@ is Store || instr@ is Delete || instr@ is Jmp
                || instr@ is Jz || instr@ is Print),
        ensures
            frame(*old(self), *final(self)),
            step_ok(r, final(self).state(), data_step(old(self).state(), instr@), old(self).state()),
    {
        match instr {
            RegInstr::MakeList(d, rs) => match self.get_all(rs) {
                Ok(vs) => self.put(*d, Value::List(vs)),
                Err(e) => Err(e),
            },
            RegInstr::Len(d, src) => match self.get_register(*src) {
                Ok(v) => match &v {
                    Value::List(l) => self.put(*d, Value::Int(l.len() as i64)),
                    Value::Str(t) => self.put(*d, Value::Int(t.as_str().len() as i64)),
                    _ => Err(mismatch1("List or String", "LEN", &v)),
                },
                Err(e) => Err(e),
            },
            RegInstr::Index(d, c, k) => {
                let (x, y) = match self.get2(*c, *k) {
                    Ok(p) => p,
                    Err(e) => {
                        return Err(e);
                    },
                };
                match (&x, &y) {
                    (Value::List(l), Value::Int(n)) => {
                        let idx = *n as usize;
                        if idx < l.len() {
                            let item = l[idx].copy();
                            self.put(*d, item)
                        } else {
                            Err(VMError::IndexOutOfBounds { index: idx, length: l.len() })
                        }
                    },
                    _ => Err(mismatch2("List and Int", "INDEX", &x, &y)),
                }
            },
            RegInstr::MakeObject(d) => {
                let fields: Vec<(String, Value)> = Vec::new();
                assert(entries_model(fields@) =~= Seq::<(Seq<char>, ValueModel)>::empty());
                self.put(*d, Value::Object(fields))
            },
            RegInstr::Halt => {
                self.halted = true;
                Ok(Effect::Done)
            },
            RegInstr::Ret(_) => {
                self.halted = true;
                Ok(Effect::Done)
            },
            RegInstr::Call(Some(reg), _, _) => self.put(*reg, Value::Null),
            RegInstr::True(d) => self.put(*d, Value::Bool(true)),
            RegInstr::False(d) => self.put(*d, Value::Bool(false)),
            RegInstr::Null(d) => self.put(*d, Value::Null),
            _ => {
                self.ip = self.ip + 1;
                Ok(Effect::Done)
            },
        }
    }
}

proof fn lemma_get_all_error(s: RegState, rs: Seq<u32>, i: int)
    requires
        0 <= i <= rs.len(),
        get_all(s, rs.take(i)) is Err,
    ensures
        get_all(s, rs) == get_all(s, rs.take(i)),
    decreases rs.len() - i,
{
    if i < rs.len() {
        assert(rs.take(i + 1).drop_last() =~= rs.take(i));
        lemma_get_all_error(s, rs, i + 1);
    } else {
        assert(rs.take(i) =~= rs);
    }
}


fn text_with_number(prefix: &str, n: u64) -> (r: Vec<char>)
    ensures
        r@ == prefix@ + nat_text(n as nat),
{
    let mut t = chars_of(prefix);
    let digits = u64_text(n);
    append_chars(&mut t, digits.as_slice());
    t
}

fn push_text(t: &mut Vec<char>, s: &str)
    ensures
        final(t)@ == old(t)@ + s@,
{
    let c = chars_of(s);
    append_chars(t, c.as_slice());
}

/// The value a received message becomes.
pub fn message_to_value(m: Message) -> (v: Value)
    ensures
        v@ == message_value(m@),
{
    match m {
        Message::Value(v) => v,
        Message::Signal(s) => Value::Str(s),
        Message::Exit(p) => Value::Str(string_of(text_with_number("EXIT:", p).as_slice())),
        Message::Down(p, r, why) => {
            let mut t = text_with_number("DOWN:", p);
            push_text(&mut t, " ");
            push_text(&mut t, r.as_str());
            push_text(&mut t, " ");
            push_text(&mut t, why.as_str());
            Value::Str(string_of(t.as_slice()))
        },
        Message::Link(p) => Value::Str(string_of(text_with_number("LINK:", p).as_slice())),
        Message::Monitor(p, r) => {
            let mut t = text_with_number("MONITOR:", p);
            push_text(&mut t, " ");
            push_text(&mut t, r.as_str());
            Value::Str(string_of(t.as_slice()))
        },
        Message::Unlink(p) => Value::Str(string_of(text_with_number("UNLINK:", p).as_slice())),
        Message::TrapExit(b) => Value::Bool(b),
    }
}

impl RegisterVM {
    fn get_pid(&self, r: RegId) -> (p: Result<i64, VMError>)
        ensures
            match get_pid(self.state(), r) {
                Ok(x) => p == Ok::<i64, VMError>(x),
                Err(f) => p is Err && fails_with(p->Err_0@, f),
            },
    {
        match self.get_register(r) {
            Ok(Value::Int(x)) => Ok(x),
            Ok(_) => Err(VMError::TypeError("PID must be integer".to_owned())),
            Err(e) => Err(e),
        }
    }

    #[verifier::rlimit(40)]
    fn exec_proc(&mut self, instr: &RegInstr) -> (r: Result<Effect, VMError>)
        requires
            old(self).wf(),
            old(self).ip < usize::MAX,
        ensures
            frame(*old(self), *final(self)),
            step_ok(r, final(self).state(), proc_step(old(self).state(), instr@, old(self).process_id), failed_state(old(self).state(), instr@)),
    {
        match instr {
            RegInstr::Spawn(d, _) => {
                let new_pid = 1000 + (self.registers.len() as u64);
                self.put(*d, Value::Int(new_pid as i64))
            },
            RegInstr::Receive(d) => {
                if self.mailbox.len() == 0 {
                    self.yielded = true;
                    Ok(Effect::Done)
                } else {
                    let ghost before = messages_model(self.mailbox@);
                    let m = self.mailbox.remove(0);
                    assert(messages_model(self.mailbox@) =~= before.drop_first());
                    let v = message_to_value(m);
                    self.put(*d, v)
                }
            },
            RegInstr::Send(t, msg) => match self.get_pid(*t) {
                Ok(_) => match self.get_register(*msg) {
                    Ok(_) => {
                        self.ip = self.ip + 1;
                        Ok(Effect::Done)
                    },
                    Err(e) => Err(e),
                },
                Err(e) => Err(e),
            },
            RegInstr::Yield => {
                self.yielded = true;
                self.ip = self.ip + 1;
                Ok(Effect::Done)
            },
            RegInstr::Monitor(d, t) => match self.get_pid(*t) {
                Ok(_) => {
                    let reference = text_with_number("ref_", self.ip as u64);
                    self.put(*d, Value::Str(string_of(reference.as_slice())))
                },
                Err(e) => Err(e),
            },
            RegInstr::Link(t) => match self.get_pid(*t) {
                Ok(_) => {
                    self.ip = self.ip + 1;
                    Ok(Effect::Done)
                },
                Err(e) => Err(e),
            },
            RegInstr::Unlink(t) => match self.get_pid(*t) {
                Ok(_) => {
                    self.ip = self.ip + 1;
                    Ok(Effect::Done)
                },
                Err(e) => Err(e),
            },
            RegInstr::Register(_, reg) => match self.process_id {
                Some(p) => self.put(*reg, Value::Int(p as i64)),
                None => {
                    self.ip = self.ip + 1;
                    Ok(Effect::Done)
                },
            },
            RegInstr::Whereis(d, _) => self.put(*d, Value::Int(0)),
            _ => {
                self.ip = self.ip + 1;
                Ok(Effect::Done)
            },
        }
    }

    /// Executes the instruction at the instruction pointer. Requests to the
    /// host come back as the effect; a float or comparison request leaves
    /// the instruction pointer in place until the host completes it.
    pub fn execute_instruction(&mut self) -> (r: Result<Effect, VMError>)
        requires
            old(self).wf(),
            old(self).ip < old(self).block.instructions@.len(),
        ensures
            frame(*old(self), *final(self)),
            step_ok(
                r,
                final(self).state(),
                reg_exec(old(self).state(), old(self).block.instructions@[old(self).ip as int]@, old(self).process_id), failed_state(old(self).state(), old(self).block.instructions@[old(self).ip as int]@)),
    {
        let _n = self.block.instructions.len();
        let instruction = self.block.instructions[self.ip].copy();
        if is_arith(&instruction) {
            self.exec_arith(&instruction)
        } else if is_proc(&instruction) {
            self.exec_proc(&instruction)
        } else {
            self.exec_data(&instruction)
        }
    }

    #[verifier::rlimit(60)]
    fn exec_arith(&mut self, instruction: &RegInstr) -> (r: Result<Effect, VMError>)
        requires
            old(self).wf(),
            old(self).ip < usize::MAX,
        ensures
            frame(*old(self), *final(self)),
            step_ok(r, final(self).state(), arith_step(old(self).state(), instruction@), old(self).state()),
    {
        match instruction {
            RegInstr::Add(d, a, b) => self.exec_int(IntOp::Add, *d, *a, *b),
            RegInstr::Sub(d, a, b) => self.exec_int(IntOp::Sub, *d, *a, *b),
            RegInstr::Mul(d, a, b) => self.exec_int(IntOp::Mul, *d, *a, *b),
            RegInstr::Div(d, a, b) => self.exec_int(IntOp::Div, *d, *a, *b),
            RegInstr::AddF(d, a, b) => self.exec_float(FloatOp::Add, *d, *a, *b),
            RegInstr::SubF(d, a, b) => self.exec_float(FloatOp::Sub, *d, *a, *b),
            RegInstr::MulF(d, a, b) => self.exec_float(FloatOp::Mul, *d, *a, *b),
            RegInstr::DivF(d, a, b) => self.exec_float(FloatOp::Div, *d, *a, *b),
            RegInstr::Eq(d, a, b) => self.exec_eq(false, *d, *a, *b),
            RegInstr::Ne(d, a, b) => self.exec_eq(true, *d, *a, *b),
            RegInstr::Lt(d, a, b) => self.exec_int_order(IntOrder::Lt, *d, *a, *b),
            RegInstr::Le(d, a, b) => self.exec_int_order(IntOrder::Le, *d, *a, *b),
            RegInstr::Gt(d, a, b) => self.exec_int_order(IntOrder::Gt, *d, *a, *b),
            RegInstr::Ge(d, a, b) => self.exec_int_order(IntOrder::Ge, *d, *a, *b),
            RegInstr::EqF(d, a, b) => self.exec_float_test(FloatTest::Eq, *d, *a, *b),
            RegInstr::NeF(d, a, b) => self.exec_float_test(FloatTest::Ne, *d, *a, *b),
            RegInstr::LtF(d, a, b) => self.exec_float_test(FloatTest::Lt, *d, *a, *b),
            RegInstr::LeF(d, a, b) => self.exec_float_test(FloatTest::Le, *d, *a, *b),
            RegInstr::GtF(d, a, b) => self.exec_float_test(FloatTest::Gt, *d, *a, *b),
            RegInstr::GeF(d, a, b) => self.exec_float_test(FloatTest::Ge, *d, *a, *b),
            RegInstr::And(d, a, b) => self.exec_logic(true, *d, *a, *b),
            RegInstr::Or(d, a, b) => self.exec_logic(false, *d, *a, *b),
            RegInstr::Not(d, a) => match self.get_register(*a) {
                Ok(v) => {
                    let f = falsy(&v);
                    self.put(*d, Value::Bool(f))
                },
                Err(e) => Err(e),
            },
            _ => {
                self.ip = self.ip + 1;
                Ok(Effect::Done)
            },
        }
    }
}

fn is_arith(i: &RegInstr) -> (b: bool)
    ensures
        b == is_arith_instr(i@),
{
    match i {
        RegInstr::Add(..) | RegInstr::Sub(..) | RegInstr::Mul(..) | RegInstr::Div(..) => true,
        RegInstr::AddF(..) | RegInstr::SubF(..) | RegInstr::MulF(..) | RegInstr::DivF(..) => true,
        RegInstr::Eq(..) | RegInstr::Ne(..) | RegInstr::Lt(..) | RegInstr::Le(..) | RegInstr::Gt(..) | RegInstr::Ge(..) => true,
        RegInstr::EqF(..) | RegInstr::NeF(..) | RegInstr::LtF(..) | RegInstr::LeF(..) | RegInstr::GtF(..) | RegInstr::GeF(..) => true,
        RegInstr::And(..) | RegInstr::Or(..) | RegInstr::Not(..) => true,
        _ => false,
    }
}

fn is_proc(i: &RegInstr) -> (b: bool)
    ensures
        b == is_proc_instr(i@),
{
    match i {
        RegInstr::Spawn(..) | RegInstr::Receive(..) | RegInstr::Send(..) | RegInstr::Yield | RegInstr::Monitor(..)
        | RegInstr::Link(..) | RegInstr::Unlink(..) | RegInstr::Register(..) | RegInstr::Whereis(..) => true,
        _ => false,
    }
}


/// A variable stored from register `r` and loaded into register `d` reads
/// back as the value register `r` held; the variables are otherwise those of
/// the store.
pub proof fn law_store_then_load(s: RegState, name: Seq<char>, r: u32, d: u32, pid: Option<u64>)
    requires
        r < s.registers.len(),
        d < s.registers.len(),
    ensures
        reg_exec(s, RegInstrModel::Store(name, r), pid) is Ok,
        ({
            let s1 = reg_exec(s, RegInstrModel::Store(name, r), pid)->Ok_0.0;
            &&& reg_exec(s1, RegInstrModel::Load(d, name), pid) is Ok
            &&& reg_exec(s1, RegInstrModel::Load(d, name), pid)->Ok_0.0.registers[d as int] == s.registers[r as int]
            &&& s1.variables == s.variables.insert(name, s.registers[r as int])
        }),
{
}

} // verus!
