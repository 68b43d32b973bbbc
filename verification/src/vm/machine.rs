//! The stack machine. A step executes one instruction; floating-point
//! arithmetic and comparison, printing, imports and the instructions that
//! reach the outside world (files, processes, network, time) are handed to
//! the host as requests, which it completes with the methods of [`VM`].
use vstd::prelude::*;
use crate::gc::{GcEngine, GcStats, MarkSweepGc, NoGc};
use crate::ir::vm::{FloatTest, IntOp, kind_name};
use crate::text::{append_chars, chars_of, nat_text, str_eq, string_of, u64_text};
use crate::vm::env::{assoc_del, assoc_find, assoc_index, assoc_lookup, assoc_put, assoc_remove, assoc_set, env_find, lemma_find_after_set};
use crate::vm::errors::{VMError, VMErrorModel, error_text};
use crate::vm::memory::ExceptionHandler;
use crate::vm::opcode::{OpCode, OpCodeModel, opcode_model, program_model};
use crate::vm::value::{FloatOp, Value, ValueModel, copy_entries, copy_strings, entries_model, float_is_zero, is_float_zero, values_model};

verus! {

/// A number operand of a mixed arithmetic request.
#[derive(Clone, Copy, PartialEq, Eq, Structural, Debug)]
pub enum Num {
    Int(i64),
    Float(u64),
}

/// The machine state that instructions read and write.
pub struct MState {
    pub stack: Seq<ValueModel>,
    pub ip: int,
    pub call_stack: Seq<usize>,
    pub frames: Seq<Seq<(Seq<char>, ValueModel)>>,
    pub handlers: Seq<ExceptionHandler>,
    pub exports: Seq<(Seq<char>, ValueModel)>,
    pub captures: Seq<(Seq<char>, ValueModel)>,
}

/// What a step asks of the host besides the state change.
pub enum MEffect {
    /// Nothing: the instruction is complete.
    Done,
    /// Print the value (as `Display` writes it); the instruction is complete.
    Print(ValueModel),
    /// Warn that `DELETE` found no such variable; the instruction is complete.
    UnknownDelete(Seq<char>),
    /// Print the innermost frame; the instruction is complete.
    DumpScope,
    /// Compute `a op b` as floats (integers converted) and complete with
    /// [`VM::complete_float`].
    Arith { op: FloatOp, a: Num, b: Num },
    /// Compare floats and complete with [`VM::complete_test`].
    Test { test: FloatTest, a: u64, b: u64 },
    /// Execute the current instruction, which reaches the outside world, and
    /// complete with [`VM::finish_host`].
    Host,
    /// Import the module at the path and complete with [`VM::finish_host`].
    Import(Seq<char>),
    /// `i64::MIN / -1`: the machine aborts on it.
    DivideOverflow,
}

/// The outcome of executing an instruction: the new state and the request,
/// or the state at the failure and the error.
pub type MOutcome = Result<(MState, MEffect), (MState, VMErrorModel)>;

/// The name of a value's kind, as error messages describe operands.
pub open spec fn kind_text(v: ValueModel) -> Seq<char> {
    match v {
        ValueModel::Int(_) => "Int"@,
        ValueModel::Float(_) => "Float"@,
        ValueModel::Str(_) => "Str"@,
        ValueModel::Bool(_) => "Bool"@,
        ValueModel::Null => "Null"@,
        ValueModel::List(_) => "List"@,
        ValueModel::Object(_) => "Object"@,
        ValueModel::Bytes(_) => "Bytes"@,
        ValueModel::Connection(_) => "Connection"@,
        ValueModel::Stream(_) => "Stream"@,
        ValueModel::Future(_) => "Future"@,
        ValueModel::Function { .. } => "Function"@,
        ValueModel::Closure { .. } => "Closure"@,
        ValueModel::Exception { .. } => "Exception"@,
    }
}

/// A type mismatch over one operand.
pub open spec fn mismatch1(expected: Seq<char>, operation: Seq<char>, a: ValueModel) -> VMErrorModel {
    VMErrorModel::TypeMismatch { expected, got: kind_text(a), operation }
}

/// A type mismatch over two operands.
pub open spec fn mismatch2(expected: Seq<char>, operation: Seq<char>, a: ValueModel, b: ValueModel) -> VMErrorModel {
    VMErrorModel::TypeMismatch { expected, got: kind_text(a) + ", "@ + kind_text(b), operation }
}

/// `s` with `v` pushed.
pub open spec fn push(s: MState, v: ValueModel) -> MState {
    MState { stack: s.stack.push(v), ..s }
}

/// Pops the top value; an empty stack underflows, naming the operation.
pub open spec fn pop1(s: MState, op: Seq<char>) -> Result<(MState, ValueModel), (MState, VMErrorModel)> {
    if s.stack.len() == 0 {
        Err((s, VMErrorModel::StackUnderflow(op)))
    } else {
        Ok((MState { stack: s.stack.drop_last(), ..s }, s.stack.last()))
    }
}

/// Pops the top value `b`, then the one below it, `a`.
pub open spec fn pop2(s: MState, op: Seq<char>) -> Result<(MState, ValueModel, ValueModel), (MState, VMErrorModel)> {
    match pop1(s, op) {
        Err(f) => Err(f),
        Ok((t, b)) => match pop1(t, op) {
            Err(f) => Err(f),
            Ok((u, a)) => Ok((u, a, b)),
        },
    }
}

/// Pushes `v` and completes.
pub open spec fn done_push(s: MState, v: ValueModel) -> MOutcome {
    Ok((push(s, v), MEffect::Done))
}

/// The boolean as the machine's integer truth value.
pub open spec fn truth(b: bool) -> ValueModel {
    ValueModel::Int(if b {
        1
    } else {
        0
    })
}

/// `ADD`, `SUB`, `MUL`, `DIV` on numbers: integers with the release
/// build's wrapping arithmetic, and anything with a float through the host.
pub open spec fn num_step(s: MState, op: IntOp, name: Seq<char>) -> MOutcome {
    match pop2(s, name) {
        Err(f) => Err(f),
        Ok((t, a, b)) => match (a, b) {
            (ValueModel::Int(x), ValueModel::Int(y)) => match op {
                IntOp::Add => done_push(t, ValueModel::Int(x.wrapping_add(y))),
                IntOp::Sub => done_push(t, ValueModel::Int(x.wrapping_sub(y))),
                IntOp::Mul => done_push(t, ValueModel::Int(x.wrapping_mul(y))),
                IntOp::Div => match x.checked_div(y) {
                    Some(q) => done_push(t, ValueModel::Int(q)),
                    None => if y == 0 {
                        Err((t, VMErrorModel::DivisionByZero))
                    } else {
                        Ok((t, MEffect::DivideOverflow))
                    },
                },
            },
            (ValueModel::Int(x), ValueModel::Float(y)) => if op == IntOp::Div && is_float_zero(y) {
                Err((t, VMErrorModel::DivisionByZero))
            } else {
                Ok((t, MEffect::Arith { op: float_of(op), a: Num::Int(x), b: Num::Float(y) }))
            },
            (ValueModel::Float(x), ValueModel::Int(y)) => if op == IntOp::Div && y == 0 {
                Err((t, VMErrorModel::DivisionByZero))
            } else {
                Ok((t, MEffect::Arith { op: float_of(op), a: Num::Float(x), b: Num::Int(y) }))
            },
            (ValueModel::Float(x), ValueModel::Float(y)) => if op == IntOp::Div && is_float_zero(y) {
                Err((t, VMErrorModel::DivisionByZero))
            } else {
                Ok((t, MEffect::Arith { op: float_of(op), a: Num::Float(x), b: Num::Float(y) }))
            },
            _ => Err((t, mismatch2("two numbers (int or float)"@, name, a, b))),
        },
    }
}

/// The float operation of an arithmetic operation.
pub open spec fn float_of(op: IntOp) -> FloatOp {
    match op {
        IntOp::Add => FloatOp::Add,
        IntOp::Sub => FloatOp::Sub,
        IntOp::Mul => FloatOp::Mul,
        IntOp::Div => FloatOp::Div,
    }
}

/// A number operand of a float operation: an integer is converted by the
/// host.
pub open spec fn float_operand(v: ValueModel) -> Option<Num> {
    match v {
        ValueModel::Float(x) => Some(Num::Float(x)),
        ValueModel::Int(i) => Some(Num::Int(i)),
        _ => None,
    }
}

/// Whether a number operand is zero.
pub open spec fn num_is_zero(n: Num) -> bool {
    match n {
        Num::Float(x) => is_float_zero(x),
        Num::Int(i) => i == 0,
    }
}

/// `ADD_F`, `SUB_F`, `MUL_F`, `DIV_F`: two numbers, an integer converted to
/// a float, through the host.
pub open spec fn float_step(s: MState, op: FloatOp, name: Seq<char>) -> MOutcome {
    match pop2(s, name) {
        Err(f) => Err(f),
        Ok((t, a, b)) => match (float_operand(a), float_operand(b)) {
            (Some(x), Some(y)) => if op == FloatOp::Div && num_is_zero(y) {
                Err(
                    (
                        t,
                        VMErrorModel::TypeMismatch {
                            expected: "non-zero divisor"@,
                            got: "zero"@,
                            operation: "DIV_F"@,
                        },
                    ),
                )
            } else {
                Ok((t, MEffect::Arith { op, a: x, b: y }))
            },
            _ => Err((t, mismatch2("two floats"@, name, a, b))),
        },
    }
}

/// An integer order comparison.
pub open spec fn int_order(c: FloatTest, x: i64, y: i64) -> bool {
    match c {
        FloatTest::Lt => x < y,
        FloatTest::Le => x <= y,
        FloatTest::Gt => x > y,
        FloatTest::Ge => x >= y,
        FloatTest::Eq => x == y,
        FloatTest::Ne => x != y,
    }
}

/// `GT`, `LT`, `GE`, `LE`: two integers.
pub open spec fn order_step(s: MState, c: FloatTest, name: Seq<char>) -> MOutcome {
    match pop2(s, name) {
        Err(f) => Err(f),
        Ok((t, a, b)) => match (a, b) {
            (ValueModel::Int(x), ValueModel::Int(y)) => done_push(t, truth(int_order(c, x, y))),
            _ => Err((t, mismatch2("two integers"@, name, a, b))),
        },
    }
}

/// `EQ_F` and the like: two floats, through the host.
pub open spec fn float_test_step(s: MState, c: FloatTest, name: Seq<char>) -> MOutcome {
    match pop2(s, name) {
        Err(f) => Err(f),
        Ok((t, a, b)) => match (a, b) {
            (ValueModel::Float(x), ValueModel::Float(y)) => Ok((t, MEffect::Test { test: c, a: x, b: y })),
            _ => Err((t, mismatch2("two floats"@, name, a, b))),
        },
    }
}

/// Equality of two values of the same kind other than floats: `None` when
/// they are not comparable.
pub open spec fn same_kind_equal(a: ValueModel, b: ValueModel) -> Option<bool> {
    match (a, b) {
        (ValueModel::Int(x), ValueModel::Int(y)) => Some(x == y),
        (ValueModel::Str(x), ValueModel::Str(y)) => Some(x == y),
        (ValueModel::Bool(x), ValueModel::Bool(y)) => Some(x == y),
        (ValueModel::Null, ValueModel::Null) => Some(true),
        (ValueModel::Function { addr: p, params: q }, ValueModel::Function { addr: u, params: v }) => Some(
            p == u && q == v,
        ),
        _ => None,
    }
}

/// `EQ` (or `NE` when `negate`): floats through the host.
pub open spec fn eq_step(s: MState, negate: bool, name: Seq<char>) -> MOutcome {
    match pop2(s, name) {
        Err(f) => Err(f),
        Ok((t, a, b)) => match (a, b) {
            (ValueModel::Float(x), ValueModel::Float(y)) => Ok(
                (
                    t,
                    MEffect::Test {
                        test: if negate {
                            FloatTest::Ne
                        } else {
                            FloatTest::Eq
                        },
                        a: x,
                        b: y,
                    },
                ),
            ),
            _ => match same_kind_equal(a, b) {
                Some(e) => done_push(t, truth(e != negate)),
                None => Err((t, mismatch2("values of the same type"@, name, a, b))),
            },
        },
    }
}

/// `AND` or `OR` on two booleans.
pub open spec fn logic_step(s: MState, is_and: bool, name: Seq<char>) -> MOutcome {
    match pop2(s, name) {
        Err(f) => Err(f),
        Ok((t, a, b)) => match (a, b) {
            (ValueModel::Bool(x), ValueModel::Bool(y)) => done_push(
                t,
                ValueModel::Bool(
                    if is_and {
                        x && y
                    } else {
                        x || y
                    },
                ),
            ),
            _ => Err((t, mismatch2("two Booleans"@, name, a, b))),
        },
    }
}


/// The value of `name`: in the innermost frame, else in the global frame.
pub open spec fn get_var(s: MState, name: Seq<char>) -> Result<ValueModel, VMErrorModel> {
    if s.frames.len() == 0 {
        Err(VMErrorModel::NoVariableScope)
    } else {
        match assoc_find(s.frames.last(), name) {
            Some(v) => Ok(v),
            None => match assoc_find(s.frames[0], name) {
                Some(v) => Ok(v),
                None => Err(VMErrorModel::UndefinedVariable(name)),
            },
        }
    }
}

/// `s` with `name` set to `v` in the innermost frame.
pub open spec fn set_var(s: MState, name: Seq<char>, v: ValueModel) -> MState {
    MState { frames: s.frames.update(s.frames.len() - 1, assoc_set(s.frames.last(), name, v)), ..s }
}

/// The frame of a call: starting from `frame`, each parameter, the last
/// first, is bound to its argument.
pub open spec fn bind_params(
    frame: Seq<(Seq<char>, ValueModel)>,
    params: Seq<Seq<char>>,
    args: Seq<ValueModel>,
) -> Seq<(Seq<char>, ValueModel)>
    decreases params.len(),
{
    if params.len() == 0 || args.len() == 0 {
        frame
    } else {
        bind_params(assoc_set(frame, params.last(), args.last()), params.drop_last(), args.drop_last())
    }
}

/// A call to `addr` whose parameters take the top stack values, with the
/// frame starting from `frame`; the return address is the next instruction.
pub open spec fn call_step(
    s: MState,
    addr: usize,
    params: Seq<Seq<char>>,
    frame: Seq<(Seq<char>, ValueModel)>,
) -> MOutcome {
    let n = s.stack.len();
    let k = params.len();
    if n < k {
        Err((s, VMErrorModel::InsufficientStackItems { needed: k as usize, available: n as usize }))
    } else {
        Ok(
            (
                MState {
                    stack: s.stack.take(n - k),
                    ip: addr as int,
                    call_stack: s.call_stack.push((s.ip + 1) as usize),
                    frames: s.frames.push(bind_params(frame, params, s.stack.skip(n - k))),
                    ..s
                },
                MEffect::Done,
            ),
        )
    }
}

/// `s` unwound to the handler `h`: the stack, call stack and frames cut
/// back to their sizes when its `TRY` ran.
pub open spec fn unwind(s: MState, h: ExceptionHandler) -> MState {
    MState {
        stack: if h.stack_size < s.stack.len() {
            s.stack.take(h.stack_size as int)
        } else {
            s.stack
        },
        call_stack: if h.call_stack_size < s.call_stack.len() {
            s.call_stack.take(h.call_stack_size as int)
        } else {
            s.call_stack
        },
        frames: if h.variable_frames < s.frames.len() {
            s.frames.take(h.variable_frames as int)
        } else {
            s.frames
        },
        ..s
    }
}

/// The message of an exception value.
pub open spec fn exception_message(e: ValueModel) -> Seq<char> {
    match e {
        ValueModel::Exception { message, .. } => message,
        _ => "Thrown value: "@ + kind_text(e),
    }
}

/// Throws exception `e`: the innermost handler catches it, with the
/// exception pushed on the unwound stack and control at its handler code;
/// with no handler, the run fails.
pub open spec fn throw(s: MState, e: ValueModel) -> MOutcome {
    if s.handlers.len() == 0 {
        Err(
            (
                s,
                VMErrorModel::ParseError {
                    line: s.ip as usize,
                    instruction: "Unhandled exception: "@ + exception_message(e),
                },
            ),
        )
    } else {
        let h = s.handlers.last();
        let t = unwind(MState { handlers: s.handlers.drop_last(), ..s }, h);
        Ok((MState { stack: t.stack.push(e), ip: h.catch_addr as int, ..t }, MEffect::Done))
    }
}

/// The stack trace of an exception raised at instruction `ip`.
pub open spec fn trace_at(ip: int) -> Seq<Seq<char>> {
    seq!["at instruction "@ + nat_text(ip as nat)]
}

/// The exception that `THROW` makes of a value.
pub open spec fn as_exception(v: ValueModel, ip: int) -> ValueModel {
    match v {
        ValueModel::Exception { .. } => v,
        ValueModel::Str(msg) => ValueModel::Exception { message: msg, stack_trace: trace_at(ip) },
        _ => ValueModel::Exception { message: "Thrown value: "@ + kind_text(v), stack_trace: trace_at(ip) },
    }
}

/// The keys of an object, as strings.
pub open spec fn key_values(m: Seq<(Seq<char>, ValueModel)>) -> Seq<ValueModel> {
    Seq::new(m.len(), |i: int| ValueModel::Str(m[i].0))
}

/// Pops an object for the field instruction `name`.
pub open spec fn pop_object(s: MState, name: Seq<char>) -> Result<(MState, Seq<(Seq<char>, ValueModel)>), (MState, VMErrorModel)> {
    match pop1(s, name) {
        Err(f) => Err(f),
        Ok((t, ValueModel::Object(m))) => Ok((t, m)),
        Ok((t, v)) => Err((t, mismatch1("an object"@, name, v))),
    }
}

/// The list, object and field instructions.
pub open spec fn data_step(s: MState, op: OpCodeModel) -> MOutcome {
    match op {
        OpCodeModel::MakeList(n) => if s.stack.len() < n {
            Err((s, VMErrorModel::InsufficientStackItems { needed: n, available: s.stack.len() as usize }))
        } else {
            done_push(
                MState { stack: s.stack.take(s.stack.len() - n), ..s },
                ValueModel::List(s.stack.skip(s.stack.len() - n)),
            )
        },
        OpCodeModel::Len => match pop1(s, "LEN"@) {
            Err(f) => Err(f),
            Ok((t, ValueModel::List(l))) => done_push(t, ValueModel::Int(l.len() as i64)),
            Ok((t, ValueModel::Object(o))) => done_push(t, ValueModel::Int(o.len() as i64)),
            Ok((t, v)) => Err((t, mismatch1("a list or object"@, "LEN"@, v))),
        },
        OpCodeModel::Index => match pop1(s, "INDEX"@) {
            Err(f) => Err(f),
            Ok((t, ValueModel::Int(i))) => match pop1(t, "INDEX"@) {
                Err(f) => Err(f),
                Ok((u, ValueModel::List(l))) => if (i as usize) < l.len() {
                    done_push(u, l[(i as usize) as int])
                } else {
                    Err((u, VMErrorModel::IndexOutOfBounds { index: i as usize, length: l.len() as usize }))
                },
                Ok((u, v)) => Err((u, mismatch1("a list"@, "INDEX"@, v))),
            },
            Ok((t, v)) => Err((t, mismatch1("an integer index"@, "INDEX"@, v))),
        },
        OpCodeModel::MakeObject => done_push(s, ValueModel::Object(Seq::empty())),
        OpCodeModel::SetField(f) => match pop1(s, "SET_FIELD"@) {
            Err(e) => Err(e),
            Ok((t, v)) => match pop_object(t, "SET_FIELD"@) {
                Err(e) => Err(e),
                Ok((u, m)) => done_push(u, ValueModel::Object(assoc_set(m, f, v))),
            },
        },
        OpCodeModel::GetField(f) => match pop_object(s, "GET_FIELD"@) {
            Err(e) => Err(e),
            Ok((t, m)) => done_push(
                t,
                match assoc_find(m, f) {
                    Some(v) => v,
                    None => ValueModel::Null,
                },
            ),
        },
        OpCodeModel::HasField(f) => match pop_object(s, "HAS_FIELD"@) {
            Err(e) => Err(e),
            Ok((t, m)) => done_push(t, truth(assoc_index(m, f) is Some)),
        },
        OpCodeModel::DeleteField(f) => match pop_object(s, "DELETE_FIELD"@) {
            Err(e) => Err(e),
            Ok((t, m)) => done_push(t, ValueModel::Object(assoc_del(m, f))),
        },
        OpCodeModel::Keys => match pop_object(s, "KEYS"@) {
            Err(e) => Err(e),
            Ok((t, m)) => done_push(t, ValueModel::List(key_values(m))),
        },
        _ => Ok((s, MEffect::Done)),
    }
}

/// The variable, function, control and exception instructions.
pub open spec fn control_step(s: MState, op: OpCodeModel) -> MOutcome {
    match op {
        OpCodeModel::Jmp(t) => Ok((MState { ip: t as int, ..s }, MEffect::Done)),
        OpCodeModel::Jz(target) => match pop1(s, "JZ"@) {
            Err(f) => Err(f),
            Ok((t, v)) => if v == ValueModel::Int(0) || v == ValueModel::Bool(false) || v == ValueModel::Null {
                Ok((MState { ip: target as int, ..t }, MEffect::Done))
            } else {
                Ok((t, MEffect::Done))
            },
        },
        OpCodeModel::Call { addr, params } => call_step(s, addr, params, Seq::empty()),
        OpCodeModel::Ret => if s.call_stack.len() == 0 {
            Err((s, VMErrorModel::CallStackUnderflow))
        } else if s.frames.len() <= 1 {
            Err((s, VMErrorModel::NoVariableScope))
        } else {
            Ok(
                (
                    MState { ip: s.call_stack.last() as int, call_stack: s.call_stack.drop_last(), frames: s.frames.drop_last(), ..s },
                    MEffect::Done,
                ),
            )
        },
        OpCodeModel::Store(name) => match pop1(s, "STORE"@) {
            Err(f) => Err(f),
            Ok((t, v)) => if t.frames.len() == 0 {
                Err((t, VMErrorModel::NoVariableScope))
            } else {
                Ok((set_var(t, name, v), MEffect::Done))
            },
        },
        OpCodeModel::Load(name) => match get_var(s, name) {
            Err(e) => Err((s, e)),
            Ok(v) => done_push(s, v),
        },
        OpCodeModel::Delete(name) => if s.frames.len() == 0 {
            Err((s, VMErrorModel::NoVariableScope))
        } else if assoc_index(s.frames.last(), name) is None {
            Ok((s, MEffect::UnknownDelete(name)))
        } else {
            Ok((MState { frames: s.frames.update(s.frames.len() - 1, assoc_del(s.frames.last(), name)), ..s }, MEffect::Done))
        },
        OpCodeModel::MakeFunction { addr, params } => done_push(s, ValueModel::Function { addr, params }),
        OpCodeModel::MakeLambda { addr, params } => Ok(
            (
                MState {
                    stack: s.stack.push(ValueModel::Closure { addr, params, captured: s.captures }),
                    captures: Seq::empty(),
                    ..s
                },
                MEffect::Done,
            ),
        ),
        OpCodeModel::Capture(name) => match get_var(s, name) {
            Err(e) => Err((s, e)),
            Ok(v) => Ok((MState { captures: assoc_set(s.captures, name, v), ..s }, MEffect::Done)),
        },
        OpCodeModel::Export(name) => match get_var(s, name) {
            Err(e) => Err((s, e)),
            Ok(v) => Ok((MState { exports: assoc_set(s.exports, name, v), ..s }, MEffect::Done)),
        },
        OpCodeModel::CallFunction => match pop1(s, "CALL_FUNCTION"@) {
            Err(f) => Err(f),
            Ok((t, ValueModel::Function { addr, params })) => call_step(t, addr, params, Seq::empty()),
            Ok((t, ValueModel::Closure { addr, params, captured })) => call_step(t, addr, params, captured),
            Ok((t, v)) => Err((t, mismatch1("a function or closure"@, "CALL_FUNCTION"@, v))),
        },
        OpCodeModel::Try { catch_addr } => Ok(
            (
                MState {
                    handlers: s.handlers.push(
                        ExceptionHandler {
                            catch_addr,
                            stack_size: s.stack.len() as usize,
                            call_stack_size: s.call_stack.len() as usize,
                            variable_frames: s.frames.len() as usize,
                        },
                    ),
                    ..s
                },
                MEffect::Done,
            ),
        ),
        OpCodeModel::Throw => match pop1(s, "THROW"@) {
            Err(f) => Err(f),
            Ok((t, v)) => throw(t, as_exception(v, t.ip)),
        },
        OpCodeModel::EndTry => Ok(
            (
                MState {
                    handlers: if s.handlers.len() > 0 {
                        s.handlers.drop_last()
                    } else {
                        s.handlers
                    },
                    ..s
                },
                MEffect::Done,
            ),
        ),
        OpCodeModel::Import(path) => Ok((s, MEffect::Import(path))),
        OpCodeModel::DumpScope => Ok((s, MEffect::DumpScope)),
        _ => Ok((s, MEffect::Done)),
    }
}

/// The name under which a process instruction is refused by this
/// machine (processes run on the scheduler).
pub open spec fn process_op_name(op: OpCodeModel) -> Option<Seq<char>> {
    match op {
        OpCodeModel::Spawn => Some("SPAWN"@),
        OpCodeModel::Receive => Some("RECEIVE"@),
        OpCodeModel::Yield => Some("YIELD"@),
        OpCodeModel::Send(_) => Some("SEND"@),
        OpCodeModel::Monitor(_) => Some("MONITOR"@),
        OpCodeModel::Demonitor(_) => Some("DEMONITOR"@),
        OpCodeModel::Link(_) => Some("LINK"@),
        OpCodeModel::Unlink(_) => Some("UNLINK"@),
        OpCodeModel::TrapExit => Some("TRAP_EXIT"@),
        OpCodeModel::ReceiveMatch(_) => Some("RECEIVE_MATCH"@),
        OpCodeModel::Register(_) => Some("REGISTER"@),
        OpCodeModel::Unregister(_) => Some("UNREGISTER"@),
        OpCodeModel::Whereis(_) => Some("WHEREIS"@),
        OpCodeModel::SendNamed(_) => Some("SENDNAMED"@),
        OpCodeModel::StartSupervisor => Some("STARTSUPERVISOR"@),
        OpCodeModel::SuperviseChild(_) => Some("SUPERVISECHILD"@),
        OpCodeModel::RestartChild(_) => Some("RESTARTCHILD"@),
        _ => None,
    }
}

/// Whether an instruction reaches the outside world (files, standard
/// input, the environment, processes, time, network, streams, encodings,
/// databases): the host executes it.
pub open spec fn is_host_op(op: OpCodeModel) -> bool {
    ||| op is ReadFile
    ||| op is WriteFile
    ||| op is ReadLine
    ||| op is ReadChar
    ||| op is ReadInput
    ||| op is AppendFile
    ||| op is FileExists
    ||| op is FileSize
    ||| op is DeleteFile
    ||| op is ListDir
    ||| op is ReadBytes
    ||| op is WriteBytes
    ||| op is GetEnv
    ||| op is SetEnv
    ||| op is GetArgs
    ||| op is Exec
    ||| op is ExecCapture
    ||| op is Exit
    ||| op is GetTime
    ||| op is Sleep
    ||| op is FormatTime
    ||| op is HttpGet
    ||| op is HttpPost
    ||| op is TcpConnect
    ||| op is TcpListen
    ||| op is TcpSend
    ||| op is TcpRecv
    ||| op is UdpBind
    ||| op is UdpSend
    ||| op is UdpRecv
    ||| op is DnsResolve
    ||| op is AsyncRead
    ||| op is AsyncWrite
    ||| op is Await
    ||| op is StreamCreate
    ||| op is StreamRead
    ||| op is StreamWrite
    ||| op is StreamClose
    ||| op is JsonParse
    ||| op is JsonStringify
    ||| op is CsvParse
    ||| op is CsvWrite
    ||| op is Compress
    ||| op is Decompress
    ||| op is Encrypt
    ||| op is Decrypt
    ||| op is Hash
    ||| op is DbConnect
    ||| op is DbQuery
    ||| op is DbExec
}

/// Whether an instruction is one of the list, object and field ones.
pub open spec fn is_data_op(op: OpCodeModel) -> bool {
    ||| op is MakeList
    ||| op is Len
    ||| op is Index
    ||| op is MakeObject
    ||| op is SetField
    ||| op is GetField
    ||| op is HasField
    ||| op is DeleteField
    ||| op is Keys
}

/// Whether an instruction is one of the variable, function, control and
/// exception ones.
pub open spec fn is_control_op(op: OpCodeModel) -> bool {
    ||| op is Jmp
    ||| op is Jz
    ||| op is Call
    ||| op is Ret
    ||| op is Store
    ||| op is Load
    ||| op is Delete
    ||| op is MakeFunction
    ||| op is MakeLambda
    ||| op is Capture
    ||| op is Export
    ||| op is CallFunction
    ||| op is Try
    ||| op is Throw
    ||| op is EndTry
    ||| op is Import
    ||| op is DumpScope
}

/// The value instructions: constants, arithmetic, comparison, logic,
/// `PRINT` and `DUP`.
pub open spec fn value_step(s: MState, op: OpCodeModel) -> MOutcome {
    match op {
        OpCodeModel::PushInt(n) => done_push(s, ValueModel::Int(n)),
        OpCodeModel::PushFloat(f) => done_push(s, ValueModel::Float(f)),
        OpCodeModel::PushStr(t) => done_push(s, ValueModel::Str(t)),
        OpCodeModel::PushBool(b) => done_push(s, ValueModel::Bool(b)),
        OpCodeModel::True => done_push(s, ValueModel::Bool(true)),
        OpCodeModel::False => done_push(s, ValueModel::Bool(false)),
        OpCodeModel::Null => done_push(s, ValueModel::Null),
        OpCodeModel::Add => num_step(s, IntOp::Add, "ADD"@),
        OpCodeModel::Sub => num_step(s, IntOp::Sub, "SUB"@),
        OpCodeModel::Mul => num_step(s, IntOp::Mul, "MUL"@),
        OpCodeModel::Div => num_step(s, IntOp::Div, "DIV"@),
        OpCodeModel::AddF => float_step(s, FloatOp::Add, "ADD_F"@),
        OpCodeModel::SubF => float_step(s, FloatOp::Sub, "SUB_F"@),
        OpCodeModel::MulF => float_step(s, FloatOp::Mul, "MUL_F"@),
        OpCodeModel::DivF => float_step(s, FloatOp::Div, "DIV_F"@),
        OpCodeModel::Concat => match pop2(s, "CONCAT"@) {
            Err(f) => Err(f),
            Ok((t, ValueModel::Str(x), ValueModel::Str(y))) => done_push(t, ValueModel::Str(x + y)),
            Ok((t, a, b)) => Err((t, mismatch2("two strings"@, "CONCAT"@, a, b))),
        },
        OpCodeModel::Print => match pop1(s, "PRINT"@) {
            Err(f) => Err(f),
            Ok((t, v)) => Ok((t, MEffect::Print(v))),
        },
        OpCodeModel::Dup => if s.stack.len() == 0 {
            Err((s, VMErrorModel::StackUnderflow("DUP"@)))
        } else {
            done_push(s, s.stack.last())
        },
        OpCodeModel::Eq => eq_step(s, false, "EQ"@),
        OpCodeModel::Ne => eq_step(s, true, "NE"@),
        OpCodeModel::Gt => order_step(s, FloatTest::Gt, "GT"@),
        OpCodeModel::Lt => order_step(s, FloatTest::Lt, "LT"@),
        OpCodeModel::Ge => order_step(s, FloatTest::Ge, "GE"@),
        OpCodeModel::Le => order_step(s, FloatTest::Le, "LE"@),
        OpCodeModel::EqF => float_test_step(s, FloatTest::Eq, "EQ_F"@),
        OpCodeModel::NeF => float_test_step(s, FloatTest::Ne, "NE_F"@),
        OpCodeModel::GtF => float_test_step(s, FloatTest::Gt, "GT_F"@),
        OpCodeModel::LtF => float_test_step(s, FloatTest::Lt, "LT_F"@),
        OpCodeModel::GeF => float_test_step(s, FloatTest::Ge, "GE_F"@),
        OpCodeModel::LeF => float_test_step(s, FloatTest::Le, "LE_F"@),
        OpCodeModel::Not => match pop1(s, "NOT"@) {
            Err(f) => Err(f),
            Ok((t, ValueModel::Bool(b))) => done_push(t, ValueModel::Bool(!b)),
            Ok((t, ValueModel::Int(i))) => done_push(t, ValueModel::Bool(i == 0)),
            Ok((t, v)) => Err((t, mismatch1("Bool or Int"@, "NOT"@, v))),
        },
        OpCodeModel::And => logic_step(s, true, "AND"@),
        OpCodeModel::Or => logic_step(s, false, "OR"@),
        _ => Ok((s, MEffect::Done)),
    }
}

/// Whether an instruction is one of the value ones.
pub open spec fn is_value_op(op: OpCodeModel) -> bool {
    ||| op is PushInt || op is PushFloat || op is PushStr || op is PushBool
    ||| op is True || op is False || op is Null
    ||| op is Add || op is Sub || op is Mul || op is Div
    ||| op is AddF || op is SubF || op is MulF || op is DivF
    ||| op is Concat || op is Print || op is Dup
    ||| op is Eq || op is Ne || op is Gt || op is Lt || op is Ge || op is Le
    ||| op is EqF || op is NeF || op is GtF || op is LtF || op is GeF || op is LeF
    ||| op is Not || op is And || op is Or
}

/// One instruction (not `HALT`, which ends the run before it executes).
pub open spec fn exec_spec(s: MState, op: OpCodeModel) -> MOutcome {
    if is_value_op(op) {
        value_step(s, op)
    } else if is_data_op(op) {
        data_step(s, op)
    } else if is_control_op(op) {
        control_step(s, op)
    } else if process_op_name(op) is Some {
        Err((s, VMErrorModel::UnsupportedOperation(process_op_name(op)->Some_0 + " not supported in VM, use TinyProc scheduler"@)))
    } else if is_host_op(op) {
        Ok((s, MEffect::Host))
    } else {
        Ok((s, MEffect::Done))
    }
}

/// Whether the instruction is complete with the effect (no host result is
/// awaited).
pub open spec fn completes(e: MEffect) -> bool {
    e is Done || e is Print || e is UnknownDelete || e is DumpScope
}

/// Moves on to the next instruction unless the instruction jumped.
pub open spec fn advance(t: MState, ip0: int) -> MState {
    if t.ip == ip0 {
        MState { ip: ip0 + 1, ..t }
    } else {
        t
    }
}

/// After a failure: inside a `TRY` block the error becomes an exception
/// thrown at the failing instruction; outside, the run fails.
pub open spec fn recover(t: MState, e: VMErrorModel) -> MOutcome {
    if t.handlers.len() > 0 {
        throw(t, ValueModel::Exception { message: error_text(e), stack_trace: trace_at(t.ip) })
    } else {
        Err((t, e))
    }
}

/// One step of a run: the instruction, then moving on (or catching the
/// failure).
pub open spec fn step_spec(s: MState, op: OpCodeModel) -> MOutcome {
    match exec_spec(s, op) {
        Ok((t, e)) => if completes(e) {
            Ok((advance(t, s.ip), e))
        } else {
            Ok((t, e))
        },
        Err((t, e)) => recover(t, e),
    }
}


/// What a step asks of the host (see [`MEffect`]).
#[derive(Debug, PartialEq)]
pub enum MachineEffect {
    Done,
    Print(Value),
    UnknownDelete(String),
    DumpScope,
    Arith { op: FloatOp, a: Num, b: Num },
    Test { test: FloatTest, a: u64, b: u64 },
    Host,
    Import(String),
    DivideOverflow,
}

impl View for MachineEffect {
    type V = MEffect;

    open spec fn view(&self) -> MEffect {
        match self {
            MachineEffect::Done => MEffect::Done,
            MachineEffect::Print(v) => MEffect::Print(v@),
            MachineEffect::UnknownDelete(n) => MEffect::UnknownDelete(n@),
            MachineEffect::DumpScope => MEffect::DumpScope,
            MachineEffect::Arith { op, a, b } => MEffect::Arith { op: *op, a: *a, b: *b },
            MachineEffect::Test { test, a, b } => MEffect::Test { test: *test, a: *a, b: *b },
            MachineEffect::Host => MEffect::Host,
            MachineEffect::Import(p) => MEffect::Import(p@),
            MachineEffect::DivideOverflow => MEffect::DivideOverflow,
        }
    }
}

/// The models of the variable frames.
pub open spec fn frames_model(v: Seq<Vec<(String, Value)>>) -> Seq<Seq<(Seq<char>, ValueModel)>> {
    Seq::new(v.len(), |i: int| entries_model(v[i]@))
}

/// `r` is what the outcome `o` describes, `st` the state afterwards.
pub open spec fn outcome_ok(r: Result<MachineEffect, VMError>, st: MState, o: MOutcome) -> bool {
    match o {
        Ok((t, e)) => r is Ok && st == t && r->Ok_0@ == e,
        Err((t, e)) => r is Err && st == t && r->Err_0@ == e,
    }
}

/// The addresses are in increasing order (equal ones side by side).
pub open spec fn sorted_addresses(s: Seq<usize>) -> bool {
    forall|i: int, j: int| 0 <= i < j < s.len() ==> s[i] <= s[j]
}

/// The breakpoints `b1` after adding `a` to `b0`: unchanged where `a` is
/// there already, else sorted and holding `a` besides what `b0` held.
pub open spec fn breakpoint_added(b0: Seq<usize>, b1: Seq<usize>, a: usize) -> bool {
    &&& b0.contains(a) ==> b1 == b0
    &&& !b0.contains(a) ==> {
        &&& sorted_addresses(b1)
        &&& b1.to_multiset() == b0.to_multiset().insert(a)
    }
}

/// Addresses in strictly increasing order: sorted, none twice.
pub open spec fn strictly_sorted(s: Seq<usize>) -> bool {
    forall|i: int, j: int| 0 <= i < j < s.len() ==> s[i] < s[j]
}

/// Adding a breakpoint keeps the breakpoints strictly increasing, and they
/// are then those that were there and the new one.
pub proof fn law_add_breakpoint_keeps_order(b0: Seq<usize>, b1: Seq<usize>, a: usize)
    requires
        strictly_sorted(b0),
        breakpoint_added(b0, b1, a),
    ensures
        strictly_sorted(b1),
        b1.to_set() == b0.to_set().insert(a),
{
    broadcast use vstd::multiset::group_multiset_axioms;
    if b0.contains(a) {
        assert(b1.to_set() =~= b0.to_set().insert(a));
    } else {
        assert(b0.no_duplicates());
        b0.lemma_multiset_has_no_duplicates();
        vstd::seq_lib::to_multiset_contains(b0, a);
        assert forall|x: usize| b1.to_multiset().contains(x) implies b1.to_multiset().count(x) == 1 by {
            vstd::seq_lib::to_multiset_contains(b0, x);
        }
        b1.lemma_multiset_has_no_duplicates_conv();
        assert forall|i: int, j: int| 0 <= i < j < b1.len() implies b1[i] < b1[j] by {
            assert(b1[i] <= b1[j]);
            assert(b1[i] != b1[j]);
        }
        assert forall|x: usize| b1.to_set().contains(x) <==> b0.to_set().insert(a).contains(x) by {
            vstd::seq_lib::to_multiset_contains(b0, x);
            vstd::seq_lib::to_multiset_contains(b1, x);
        }
        assert(b1.to_set() =~= b0.to_set().insert(a));
    }
}

/// The stack machine.
pub struct VM {
    pub stack: Vec<Value>,
    pub instructions: Vec<OpCode>,
    pub ip: usize,
    pub call_stack: Vec<usize>,
    pub variables: Vec<Vec<(String, Value)>>,
    pub try_stack: Vec<ExceptionHandler>,
    pub exports: Vec<(String, Value)>,
    pub loaded_modules: Vec<(String, Vec<(String, Value)>)>,
    pub loading_stack: Vec<String>,
    pub lambda_captures: Vec<(String, Value)>,
    pub max_stack_size: usize,
    pub instruction_count: usize,
    pub debug_mode: bool,
    pub breakpoints: Vec<usize>,
    pub gc_engine: GcEngine,
    pub gc_stats_enabled: bool,
    pub profile_enabled: bool,
    pub trace_enabled: bool,
}

/// The parts of a machine that executing an instruction leaves alone.
pub open spec fn same_setup(a: VM, b: VM) -> bool {
    &&& b.instructions == a.instructions
    &&& b.loaded_modules == a.loaded_modules
    &&& b.loading_stack == a.loading_stack
    &&& b.max_stack_size == a.max_stack_size
    &&& b.instruction_count == a.instruction_count
    &&& b.debug_mode == a.debug_mode
    &&& b.breakpoints == a.breakpoints
    &&& b.gc_engine == a.gc_engine
    &&& b.gc_stats_enabled == a.gc_stats_enabled
    &&& b.profile_enabled == a.profile_enabled
    &&& b.trace_enabled == a.trace_enabled
}

fn text_number(prefix: &str, n: usize) -> (r: String)
    ensures
        r@ == prefix@ + nat_text(n as nat),
{
    let mut t = chars_of(prefix);
    let d = u64_text(n as u64);
    append_chars(&mut t, d.as_slice());
    string_of(t.as_slice())
}

fn concat_str(a: &str, b: &str) -> (r: String)
    ensures
        r@ == a@ + b@,
{
    let mut t = chars_of(a);
    let u = chars_of(b);
    append_chars(&mut t, u.as_slice());
    string_of(t.as_slice())
}

/// A type mismatch over one operand.
pub fn mismatch_one(expected: &str, operation: &str, a: &Value) -> (e: VMError)
    ensures
        e@ == mismatch1(expected@, operation@, a@),
{
    VMError::TypeMismatch { expected: expected.to_owned(), got: kind_name(a).to_owned(), operation: operation.to_owned() }
}

/// A type mismatch over two operands.
pub fn mismatch_two(expected: &str, operation: &str, a: &Value, b: &Value) -> (e: VMError)
    ensures
        e@ == mismatch2(expected@, operation@, a@, b@),
{
    let mut t = chars_of(kind_name(a));
    let sep = chars_of(", ");
    append_chars(&mut t, sep.as_slice());
    let u = chars_of(kind_name(b));
    append_chars(&mut t, u.as_slice());
    VMError::TypeMismatch { expected: expected.to_owned(), got: string_of(t.as_slice()), operation: operation.to_owned() }
}

fn truth_value(b: bool) -> (v: Value)
    ensures
        v@ == truth(b),
{
    Value::Int(if b { 1 } else { 0 })
}

impl VM {
    /// The state that instructions read and write.
    pub open spec fn state(&self) -> MState {
        MState {
            stack: values_model(self.stack@),
            ip: self.ip as int,
            call_stack: self.call_stack@,
            frames: frames_model(self.variables@),
            handlers: self.try_stack@,
            exports: entries_model(self.exports@),
            captures: entries_model(self.lambda_captures@),
        }
    }

    /// A machine with the mark-and-sweep collector.
    pub fn new(instructions: Vec<OpCode>) -> (vm: VM)
        ensures
            vm.instructions@ == instructions@,
            vm.state() == initial_state(),
            !vm.debug_mode,
            vm.instruction_count == 0,
            vm.max_stack_size == 0,
            vm.breakpoints@.len() == 0,
            vm.loaded_modules@.len() == 0,
            vm.loading_stack@.len() == 0,
    {
        VM::new_with_gc(instructions, "mark-sweep", false, false)
    }

    /// A machine with the mark-and-sweep collector, in debug mode or not.
    pub fn new_with_debug(instructions: Vec<OpCode>, debug_mode: bool) -> (vm: VM)
        ensures
            vm.instructions@ == instructions@,
            vm.state() == initial_state(),
            vm.debug_mode == debug_mode,
            vm.instruction_count == 0,
            vm.max_stack_size == 0,
            vm.breakpoints@.len() == 0,
            vm.loaded_modules@.len() == 0,
            vm.loading_stack@.len() == 0,
    {
        VM::new_with_gc(instructions, "mark-sweep", debug_mode, false)
    }

    /// A machine with the named collector (`no-gc`, else mark-and-sweep).
    pub fn new_with_gc(instructions: Vec<OpCode>, gc_type: &str, debug_mode: bool, gc_stats_enabled: bool) -> (vm: VM)
        ensures
            vm.instructions@ == instructions@,
            vm.state() == initial_state(),
            vm.debug_mode == debug_mode,
            vm.gc_stats_enabled == gc_stats_enabled,
            (vm.gc_engine is NoGc) == (gc_type@ == "no-gc"@),
            vm.instruction_count == 0,
            vm.max_stack_size == 0,
            vm.breakpoints@.len() == 0,
            vm.loaded_modules@.len() == 0,
            vm.loading_stack@.len() == 0,
    {
        VM::new_with_config(instructions, gc_type, debug_mode, gc_stats_enabled, false, false)
    }

    /// A machine with all its settings: the named collector (`no-gc`, else
    /// mark-and-sweep), debug mode, collector statistics, tracing and
    /// profiling.
    pub fn new_with_config(
        instructions: Vec<OpCode>,
        gc_type: &str,
        debug_mode: bool,
        gc_stats_enabled: bool,
        trace_enabled: bool,
        profile_enabled: bool,
    ) -> (vm: VM)
        ensures
            vm.instructions@ == instructions@,
            vm.state() == initial_state(),
            vm.debug_mode == debug_mode,
            vm.gc_stats_enabled == gc_stats_enabled,
            vm.trace_enabled == trace_enabled,
            vm.profile_enabled == profile_enabled,
            (vm.gc_engine is NoGc) == (gc_type@ == "no-gc"@),
            vm.instruction_count == 0,
            vm.max_stack_size == 0,
            vm.breakpoints@.len() == 0,
            vm.loaded_modules@.len() == 0,
            vm.loading_stack@.len() == 0,
    {
        let gc_engine = if str_eq(gc_type, "no-gc") {
            GcEngine::NoGc(NoGc::new())
        } else {
            GcEngine::MarkSweep(MarkSweepGc::new(debug_mode))
        };
        let mut variables: Vec<Vec<(String, Value)>> = Vec::new();
        variables.push(Vec::new());
        let vm = VM {
            stack: Vec::new(),
            instructions,
            ip: 0,
            call_stack: Vec::new(),
            variables,
            try_stack: Vec::new(),
            exports: Vec::new(),
            loaded_modules: Vec::new(),
            loading_stack: Vec::new(),
            lambda_captures: Vec::new(),
            max_stack_size: 0,
            instruction_count: 0,
            debug_mode,
            breakpoints: Vec::new(),
            gc_engine,
            gc_stats_enabled,
            profile_enabled,
            trace_enabled,
        };
        assert(vm.state() =~= initial_state()) by {
            assert(values_model(vm.stack@) =~= Seq::<ValueModel>::empty());
            assert(entries_model(vm.variables@[0]@) =~= Seq::<(Seq<char>, ValueModel)>::empty());
            assert(frames_model(vm.variables@) =~= seq![Seq::<(Seq<char>, ValueModel)>::empty()]);
            assert(entries_model(vm.exports@) =~= Seq::<(Seq<char>, ValueModel)>::empty());
            assert(entries_model(vm.lambda_captures@) =~= Seq::<(Seq<char>, ValueModel)>::empty());
        }
        vm
    }

    fn pop_value(&mut self, operation: &str) -> (r: Result<Value, VMError>)
        ensures
            same_setup(*old(self), *final(self)),
            match pop1(old(self).state(), operation@) {
                Ok((t, v)) => r is Ok && r->Ok_0@ == v && final(self).state() == t,
                Err((t, e)) => r is Err && r->Err_0@ == e && final(self).state() == t,
            },
    {
        match self.stack.pop() {
            Some(v) => {
                assert(values_model(self.stack@) =~= values_model(old(self).stack@).drop_last());
                Ok(v)
            },
            None => Err(VMError::StackUnderflow(operation.to_owned())),
        }
    }

    fn pop_two(&mut self, operation: &str) -> (r: Result<(Value, Value), VMError>)
        ensures
            same_setup(*old(self), *final(self)),
            match pop2(old(self).state(), operation@) {
                Ok((t, a, b)) => r is Ok && r->Ok_0.0@ == a && r->Ok_0.1@ == b && final(self).state() == t,
                Err((t, e)) => r is Err && r->Err_0@ == e && final(self).state() == t,
            },
    {
        let b = match self.pop_value(operation) {
            Ok(v) => v,
            Err(e) => {
                return Err(e);
            },
        };
        let a = match self.pop_value(operation) {
            Ok(v) => v,
            Err(e) => {
                return Err(e);
            },
        };
        Ok((a, b))
    }

    fn push_done(&mut self, v: Value) -> (r: Result<MachineEffect, VMError>)
        ensures
            same_setup(*old(self), *final(self)),
            outcome_ok(r, final(self).state(), done_push(old(self).state(), v@)),
    {
        let ghost before = values_model(self.stack@);
        self.stack.push(v);
        assert(values_model(self.stack@) =~= before.push(v@));
        Ok(MachineEffect::Done)
    }
}

/// The state of a new machine: empty stacks, one empty global frame, at the
/// first instruction.
pub open spec fn initial_state() -> MState {
    MState {
        stack: Seq::empty(),
        ip: 0,
        call_stack: Seq::empty(),
        frames: seq![Seq::empty()],
        handlers: Seq::empty(),
        exports: Seq::empty(),
        captures: Seq::empty(),
    }
}


fn float_of_exec(op: IntOp) -> (f: FloatOp)
    ensures
        f == float_of(op),
{
    match op {
        IntOp::Add => FloatOp::Add,
        IntOp::Sub => FloatOp::Sub,
        IntOp::Mul => FloatOp::Mul,
        IntOp::Div => FloatOp::Div,
    }
}

fn int_order_exec(c: FloatTest, x: i64, y: i64) -> (b: bool)
    ensures
        b == int_order(c, x, y),
{
    match c {
        FloatTest::Lt => x < y,
        FloatTest::Le => x <= y,
        FloatTest::Gt => x > y,
        FloatTest::Ge => x >= y,
        FloatTest::Eq => x == y,
        FloatTest::Ne => x != y,
    }
}

fn strings_equal(a: &Vec<String>, b: &Vec<String>) -> (r: bool)
    ensures
        r == (crate::vm::value::strings_model(a@) == crate::vm::value::strings_model(b@)),
{
    let ghost x = crate::vm::value::strings_model(a@);
    let ghost y = crate::vm::value::strings_model(b@);
    if a.len() != b.len() {
        assert(x.len() != y.len());
        return false;
    }
    let mut i: usize = 0;
    while i < a.len()
        invariant
            i <= a@.len(),
            a@.len() == b@.len(),
            x == crate::vm::value::strings_model(a@),
            y == crate::vm::value::strings_model(b@),
            forall|j: int| 0 <= j < i ==> x[j] == y[j],
        decreases a.len() - i,
    {
        if !str_eq(a[i].as_str(), b[i].as_str()) {
            assert(x[i as int] != y[i as int]);
            return false;
        }
        i = i + 1;
    }
    assert(x =~= y);
    true
}

pub(crate) fn same_kind_equal_exec(a: &Value, b: &Value) -> (r: Option<bool>)
    ensures
        r == same_kind_equal(a@, b@),
{
    match (a, b) {
        (Value::Int(x), Value::Int(y)) => Some(*x == *y),
        (Value::Str(x), Value::Str(y)) => Some(str_eq(x.as_str(), y.as_str())),
        (Value::Bool(x), Value::Bool(y)) => Some(*x == *y),
        (Value::Null, Value::Null) => Some(true),
        (Value::Function { addr: p, params: q }, Value::Function { addr: u, params: v }) => Some(
            *p == *u && strings_equal(q, v),
        ),
        _ => None,
    }
}

impl VM {
    fn exec_num(&mut self, op: IntOp, name: &str) -> (r: Result<MachineEffect, VMError>)
        ensures
            same_setup(*old(self), *final(self)),
            outcome_ok(r, final(self).state(), num_step(old(self).state(), op, name@)),
    {
        let (a, b) = match self.pop_two(name) {
            Ok(p) => p,
            Err(e) => {
                return Err(e);
            },
        };
        match (&a, &b) {
            (Value::Int(x), Value::Int(y)) => match op {
                IntOp::Add => self.push_done(Value::Int(x.wrapping_add(*y))),
                IntOp::Sub => self.push_done(Value::Int(x.wrapping_sub(*y))),
                IntOp::Mul => self.push_done(Value::Int(x.wrapping_mul(*y))),
                IntOp::Div => match x.checked_div(*y) {
                    Some(q) => self.push_done(Value::Int(q)),
                    None => {
                        if *y == 0 {
                            Err(VMError::DivisionByZero)
                        } else {
                            Ok(MachineEffect::DivideOverflow)
                        }
                    },
                },
            },
            (Value::Int(x), Value::Float(y)) => {
                if matches!(op, IntOp::Div) && float_is_zero(*y) {
                    Err(VMError::DivisionByZero)
                } else {
                    Ok(MachineEffect::Arith { op: float_of_exec(op), a: Num::Int(*x), b: Num::Float(*y) })
                }
            },
            (Value::Float(x), Value::Int(y)) => {
                if matches!(op, IntOp::Div) && *y == 0 {
                    Err(VMError::DivisionByZero)
                } else {
                    Ok(MachineEffect::Arith { op: float_of_exec(op), a: Num::Float(*x), b: Num::Int(*y) })
                }
            },
            (Value::Float(x), Value::Float(y)) => {
                if matches!(op, IntOp::Div) && float_is_zero(*y) {
                    Err(VMError::DivisionByZero)
                } else {
                    Ok(MachineEffect::Arith { op: float_of_exec(op), a: Num::Float(*x), b: Num::Float(*y) })
                }
            },
            _ => Err(mismatch_two("two numbers (int or float)", name, &a, &b)),
        }
    }

    fn exec_float(&mut self, op: FloatOp, name: &str) -> (r: Result<MachineEffect, VMError>)
        ensures
            same_setup(*old(self), *final(self)),
            outcome_ok(r, final(self).state(), float_step(old(self).state(), op, name@)),
    {
        let (a, b) = match self.pop_two(name) {
            Ok(p) => p,
            Err(e) => {
                return Err(e);
            },
        };
        let x = match &a {
            Value::Float(x) => Num::Float(*x),
            Value::Int(i) => Num::Int(*i),
            _ => {
                return Err(mismatch_two("two floats", name, &a, &b));
            },
        };
        let (y, zero) = match &b {
            Value::Float(y) => (Num::Float(*y), float_is_zero(*y)),
            Value::Int(j) => (Num::Int(*j), *j == 0),
            _ => {
                return Err(mismatch_two("two floats", name, &a, &b));
            },
        };
        if matches!(op, FloatOp::Div) && zero {
            Err(
                VMError::TypeMismatch {
                    expected: "non-zero divisor".to_owned(),
                    got: "zero".to_owned(),
                    operation: "DIV_F".to_owned(),
                },
            )
        } else {
            Ok(MachineEffect::Arith { op, a: x, b: y })
        }
    }

    fn exec_order(&mut self, c: FloatTest, name: &str) -> (r: Result<MachineEffect, VMError>)
        ensures
            same_setup(*old(self), *final(self)),
            outcome_ok(r, final(self).state(), order_step(old(self).state(), c, name@)),
    {
        let (a, b) = match self.pop_two(name) {
            Ok(p) => p,
            Err(e) => {
                return Err(e);
            },
        };
        match (&a, &b) {
            (Value::Int(x), Value::Int(y)) => self.push_done(truth_value(int_order_exec(c, *x, *y))),
            _ => Err(mismatch_two("two integers", name, &a, &b)),
        }
    }

    fn exec_float_test(&mut self, c: FloatTest, name: &str) -> (r: Result<MachineEffect, VMError>)
        ensures
            same_setup(*old(self), *final(self)),
            outcome_ok(r, final(self).state(), float_test_step(old(self).state(), c, name@)),
    {
        let (a, b) = match self.pop_two(name) {
            Ok(p) => p,
            Err(e) => {
                return Err(e);
            },
        };
        match (&a, &b) {
            (Value::Float(x), Value::Float(y)) => Ok(MachineEffect::Test { test: c, a: *x, b: *y }),
            _ => Err(mismatch_two("two floats", name, &a, &b)),
        }
    }

    fn exec_eq(&mut self, negate: bool, name: &str) -> (r: Result<MachineEffect, VMError>)
        ensures
            same_setup(*old(self), *final(self)),
            outcome_ok(r, final(self).state(), eq_step(old(self).state(), negate, name@)),
    {
        let (a, b) = match self.pop_two(name) {
            Ok(p) => p,
            Err(e) => {
                return Err(e);
            },
        };
        match (&a, &b) {
            (Value::Float(x), Value::Float(y)) => Ok(
                MachineEffect::Test {
                    test: if negate {
                        FloatTest::Ne
                    } else {
                        FloatTest::Eq
                    },
                    a: *x,
                    b: *y,
                },
            ),
            _ => match same_kind_equal_exec(&a, &b) {
                Some(e) => self.push_done(truth_value(e != negate)),
                None => Err(mismatch_two("values of the same type", name, &a, &b)),
            },
        }
    }

    fn exec_logic(&mut self, is_and: bool, name: &str) -> (r: Result<MachineEffect, VMError>)
        ensures
            same_setup(*old(self), *final(self)),
            outcome_ok(r, final(self).state(), logic_step(old(self).state(), is_and, name@)),
    {
        let (a, b) = match self.pop_two(name) {
            Ok(p) => p,
            Err(e) => {
                return Err(e);
            },
        };
        match (&a, &b) {
            (Value::Bool(x), Value::Bool(y)) => self.push_done(Value::Bool(if is_and { *x && *y } else { *x || *y })),
            _ => Err(mismatch_two("two Booleans", name, &a, &b)),
        }
    }

    #[verifier::rlimit(60)]
    pub(crate) fn exec_value(&mut self, op: &OpCode) -> (r: Result<MachineEffect, VMError>)
        requires
            is_value_op(opcode_model(*op)),
        ensures
            same_setup(*old(self), *final(self)),
            outcome_ok(r, final(self).state(), value_step(old(self).state(), opcode_model(*op))),
    {
        match op {
            OpCode::PushInt(n) => self.push_done(Value::Int(*n)),
            OpCode::PushFloat(f) => self.push_done(Value::Float(*f)),
            OpCode::PushStr(t) => self.push_done(Value::Str(t.clone())),
            OpCode::PushBool(b) => self.push_done(Value::Bool(*b)),
            OpCode::True => self.push_done(Value::Bool(true)),
            OpCode::False => self.push_done(Value::Bool(false)),
            OpCode::Null => self.push_done(Value::Null),
            OpCode::Add => self.exec_num(IntOp::Add, "ADD"),
            OpCode::Sub => self.exec_num(IntOp::Sub, "SUB"),
            OpCode::Mul => self.exec_num(IntOp::Mul, "MUL"),
            OpCode::Div => self.exec_num(IntOp::Div, "DIV"),
            OpCode::AddF => self.exec_float(FloatOp::Add, "ADD_F"),
            OpCode::SubF => self.exec_float(FloatOp::Sub, "SUB_F"),
            OpCode::MulF => self.exec_float(FloatOp::Mul, "MUL_F"),
            OpCode::DivF => self.exec_float(FloatOp::Div, "DIV_F"),
            OpCode::Concat => {
                let (a, b) = match self.pop_two("CONCAT") {
                    Ok(p) => p,
                    Err(e) => {
                        return Err(e);
                    },
                };
                match (&a, &b) {
                    (Value::Str(x), Value::Str(y)) => self.push_done(Value::Str(concat_str(x.as_str(), y.as_str()))),
                    _ => Err(mismatch_two("two strings", "CONCAT", &a, &b)),
                }
            },
            OpCode::Print => match self.pop_value("PRINT") {
                Ok(v) => Ok(MachineEffect::Print(v)),
                Err(e) => Err(e),
            },
            OpCode::Dup => {
                if self.stack.len() == 0 {
                    Err(VMError::StackUnderflow("DUP".to_owned()))
                } else {
                    let v = self.stack[self.stack.len() - 1].copy();
                    self.push_done(v)
                }
            },
            OpCode::Eq => self.exec_eq(false, "EQ"),
            OpCode::Ne => self.exec_eq(true, "NE"),
            OpCode::Gt => self.exec_order(FloatTest::Gt, "GT"),
            OpCode::Lt => self.exec_order(FloatTest::Lt, "LT"),
            OpCode::Ge => self.exec_order(FloatTest::Ge, "GE"),
            OpCode::Le => self.exec_order(FloatTest::Le, "LE"),
            OpCode::EqF => self.exec_float_test(FloatTest::Eq, "EQ_F"),
            OpCode::NeF => self.exec_float_test(FloatTest::Ne, "NE_F"),
            OpCode::GtF => self.exec_float_test(FloatTest::Gt, "GT_F"),
            OpCode::LtF => self.exec_float_test(FloatTest::Lt, "LT_F"),
            OpCode::GeF => self.exec_float_test(FloatTest::Ge, "GE_F"),
            OpCode::LeF => self.exec_float_test(FloatTest::Le, "LE_F"),
            OpCode::Not => match self.pop_value("NOT") {
                Ok(v) => match &v {
                    Value::Bool(b) => self.push_done(Value::Bool(!*b)),
                    Value::Int(n) => self.push_done(Value::Bool(*n == 0)),
                    _ => Err(mismatch_one("Bool or Int", "NOT", &v)),
                },
                Err(e) => Err(e),
            },
            OpCode::And => self.exec_logic(true, "AND"),
            OpCode::Or => self.exec_logic(false, "OR"),
            _ => Ok(MachineEffect::Done),
        }
    }
}


impl VM {
    fn pop_object(&mut self, name: &str) -> (r: Result<Vec<(String, Value)>, VMError>)
        ensures
            same_setup(*old(self), *final(self)),
            match pop_object(old(self).state(), name@) {
                Ok((t, m)) => r is Ok && entries_model(r->Ok_0@) == m && final(self).state() == t,
                Err((t, e)) => r is Err && r->Err_0@ == e && final(self).state() == t,
            },
    {
        match self.pop_value(name) {
            Ok(Value::Object(m)) => Ok(m),
            Ok(v) => Err(mismatch_one("an object", name, &v)),
            Err(e) => Err(e),
        }
    }

    /// The top `n` values, bottom first, popped.
    fn pop_many(&mut self, n: usize) -> (r: Vec<Value>)
        requires
            old(self).stack@.len() >= n,
        ensures
            same_setup(*old(self), *final(self)),
            final(self).state() == (MState {
                stack: old(self).state().stack.take(old(self).state().stack.len() - n),
                ..old(self).state()
            }),
            values_model(r@) == old(self).state().stack.skip(old(self).state().stack.len() - n),
    {
        let len = self.stack.len();
        let rest = self.stack.split_off(len - n);
        assert(values_model(self.stack@) =~= values_model(old(self).stack@).take(len - n));
        assert(values_model(rest@) =~= values_model(old(self).stack@).skip(len - n));
        rest
    }

    #[verifier::rlimit(60)]
    fn exec_data(&mut self, op: &OpCode) -> (r: Result<MachineEffect, VMError>)
        requires
            is_data_op(opcode_model(*op)),
        ensures
            same_setup(*old(self), *final(self)),
            outcome_ok(r, final(self).state(), data_step(old(self).state(), opcode_model(*op))),
    {
        match op {
            OpCode::MakeList(n) => {
                if self.stack.len() < *n {
                    return Err(VMError::InsufficientStackItems { needed: *n, available: self.stack.len() });
                }
                let items = self.pop_many(*n);
                self.push_done(Value::List(items))
            },
            OpCode::Len => match self.pop_value("LEN") {
                Ok(v) => match &v {
                    Value::List(l) => self.push_done(Value::Int(l.len() as i64)),
                    Value::Object(o) => self.push_done(Value::Int(o.len() as i64)),
                    _ => Err(mismatch_one("a list or object", "LEN", &v)),
                },
                Err(e) => Err(e),
            },
            OpCode::Index => {
                let index = match self.pop_value("INDEX") {
                    Ok(Value::Int(i)) => i as usize,
                    Ok(v) => {
                        return Err(mismatch_one("an integer index", "INDEX", &v));
                    },
                    Err(e) => {
                        return Err(e);
                    },
                };
                let list = match self.pop_value("INDEX") {
                    Ok(Value::List(l)) => l,
                    Ok(v) => {
                        return Err(mismatch_one("a list", "INDEX", &v));
                    },
                    Err(e) => {
                        return Err(e);
                    },
                };
                if index >= list.len() {
                    return Err(VMError::IndexOutOfBounds { index, length: list.len() });
                }
                let item = list[index].copy();
                self.push_done(item)
            },
            OpCode::MakeObject => {
                let fields: Vec<(String, Value)> = Vec::new();
                assert(entries_model(fields@) =~= Seq::<(Seq<char>, ValueModel)>::empty());
                self.push_done(Value::Object(fields))
            },
            OpCode::SetField(f) => {
                let v = match self.pop_value("SET_FIELD") {
                    Ok(v) => v,
                    Err(e) => {
                        return Err(e);
                    },
                };
                let mut m = match self.pop_object("SET_FIELD") {
                    Ok(m) => m,
                    Err(e) => {
                        return Err(e);
                    },
                };
                assoc_put(&mut m, f.clone(), v);
                self.push_done(Value::Object(m))
            },
            OpCode::GetField(f) => match self.pop_object("GET_FIELD") {
                Ok(m) => match assoc_lookup(&m, f.as_str()) {
                    Some(v) => self.push_done(v),
                    None => self.push_done(Value::Null),
                },
                Err(e) => Err(e),
            },
            OpCode::HasField(f) => match self.pop_object("HAS_FIELD") {
                Ok(m) => {
                    let found = env_find(&m, f.as_str());
                    self.push_done(truth_value(found.is_some()))
                },
                Err(e) => Err(e),
            },
            OpCode::DeleteField(f) => match self.pop_object("DELETE_FIELD") {
                Ok(m) => {
                    let mut m = m;
                    assoc_remove(&mut m, f.as_str());
                    self.push_done(Value::Object(m))
                },
                Err(e) => Err(e),
            },
            OpCode::Keys => match self.pop_object("KEYS") {
                Ok(m) => {
                    let mut keys: Vec<Value> = Vec::new();
                    let mut i: usize = 0;
                    while i < m.len()
                        invariant
                            i <= m@.len(),
                            values_model(keys@) == key_values(entries_model(m@)).take(i as int),
                        decreases m.len() - i,
                    {
                        let ghost before = values_model(keys@);
                        keys.push(Value::Str(m[i].0.clone()));
                        assert(values_model(keys@) =~= before.push(ValueModel::Str(m@[i as int].0@)));
                        assert(key_values(entries_model(m@)).take(i + 1) =~= key_values(entries_model(m@)).take(
                            i as int,
                        ).push(ValueModel::Str(m@[i as int].0@)));
                        i = i + 1;
                    }
                    assert(key_values(entries_model(m@)).take(m@.len() as int) =~= key_values(entries_model(m@)));
                    self.push_done(Value::List(keys))
                },
                Err(e) => Err(e),
            },
            _ => Ok(MachineEffect::Done),
        }
    }
}


/// The message of an exception value.
fn exception_message_exec(e: &Value) -> (r: String)
    ensures
        r@ == exception_message(e@),
{
    match e {
        Value::Exception { message, .. } => message.clone(),
        _ => concat_str("Thrown value: ", kind_name(e)),
    }
}

/// The stack trace of an exception raised at instruction `ip`.
fn trace_at_exec(ip: usize) -> (r: Vec<String>)
    ensures
        crate::vm::value::strings_model(r@) == trace_at(ip as int),
{
    let mut r: Vec<String> = Vec::new();
    r.push(text_number("at instruction ", ip));
    assert(crate::vm::value::strings_model(r@) =~= trace_at(ip as int));
    r
}

impl VM {
    fn get_var(&self, name: &str) -> (r: Result<Value, VMError>)
        ensures
            match get_var(self.state(), name@) {
                Ok(v) => r is Ok && r->Ok_0@ == v,
                Err(e) => r is Err && r->Err_0@ == e,
            },
    {
        if self.variables.len() == 0 {
            return Err(VMError::NoVariableScope);
        }
        let last = self.variables.len() - 1;
        assert(frames_model(self.variables@).last() == entries_model(self.variables@[last as int]@));
        assert(frames_model(self.variables@)[0] == entries_model(self.variables@[0]@));
        match assoc_lookup(&self.variables[last], name) {
            Some(v) => Ok(v),
            None => match assoc_lookup(&self.variables[0], name) {
                Some(v) => Ok(v),
                None => Err(VMError::UndefinedVariable(name.to_owned())),
            },
        }
    }

    pub(crate) fn set_var(&mut self, name: String, v: Value)
        requires
            old(self).variables@.len() > 0,
        ensures
            same_setup(*old(self), *final(self)),
            final(self).state() == set_var(old(self).state(), name@, v@),
    {
        let ghost f0 = frames_model(self.variables@);
        let mut frame = self.variables.pop().unwrap();
        assert(entries_model(frame@) == f0.last());
        assoc_put(&mut frame, name, v);
        self.variables.push(frame);
        assert(frames_model(self.variables@) =~= f0.update(f0.len() - 1, assoc_set(f0.last(), name@, v@)));
    }

    fn call(&mut self, addr: usize, params: &Vec<String>, frame: Vec<(String, Value)>) -> (r: Result<
        MachineEffect,
        VMError,
    >)
        requires
            old(self).ip < usize::MAX,
        ensures
            same_setup(*old(self), *final(self)),
            outcome_ok(
                r,
                final(self).state(),
                call_step(old(self).state(), addr, crate::vm::value::strings_model(params@), entries_model(frame@)),
            ),
    {
        let k = params.len();
        let ghost p = crate::vm::value::strings_model(params@);
        if self.stack.len() < k {
            return Err(VMError::InsufficientStackItems { needed: k, available: self.stack.len() });
        }
        let args = self.pop_many(k);
        let ghost a = values_model(args@);
        let ghost f0 = entries_model(frame@);
        let mut frame = frame;
        let mut j: usize = k;
        assert(p.take(k as int) =~= p);
        assert(a.take(k as int) =~= a);
        while j > 0
            invariant
                j <= k,
                k == params@.len(),
                args@.len() == k,
                p == crate::vm::value::strings_model(params@),
                a == values_model(args@),
                bind_params(f0, p, a) == bind_params(entries_model(frame@), p.take(j as int), a.take(j as int)),
            decreases j,
        {
            assert(p.take(j as int).drop_last() =~= p.take(j - 1));
            assert(a.take(j as int).drop_last() =~= a.take(j - 1));
            assert(p.take(j as int).last() == params@[j - 1]@);
            assert(a.take(j as int).last() == args@[j - 1]@);
            assoc_put(&mut frame, params[j - 1].clone(), args[j - 1].copy());
            j = j - 1;
        }
        assert(p.take(0) =~= Seq::<Seq<char>>::empty());
        let ghost fm = frames_model(self.variables@);
        self.call_stack.push(self.ip + 1);
        self.variables.push(frame);
        assert(frames_model(self.variables@) =~= fm.push(bind_params(f0, p, a)));
        self.ip = addr;
        Ok(MachineEffect::Done)
    }

    fn throw(&mut self, e: Value) -> (r: Result<MachineEffect, VMError>)
        ensures
            same_setup(*old(self), *final(self)),
            outcome_ok(r, final(self).state(), throw(old(self).state(), e@)),
    {
        if self.try_stack.len() == 0 {
            let msg = exception_message_exec(&e);
            return Err(
                VMError::ParseError { line: self.ip, instruction: concat_str("Unhandled exception: ", msg.as_str()) },
            );
        }
        let h = self.try_stack.pop().unwrap();
        let ghost st = values_model(self.stack@);
        let ghost fm = frames_model(self.variables@);
        let ghost cs = self.call_stack@;
        assert(h == old(self).state().handlers.last());
        self.stack.truncate(h.stack_size);
        self.call_stack.truncate(h.call_stack_size);
        self.variables.truncate(h.variable_frames);
        proof {
            if h.stack_size < st.len() {
                assert(values_model(self.stack@) =~= st.take(h.stack_size as int));
            } else {
                assert(values_model(self.stack@) =~= st);
            }
            if h.variable_frames < fm.len() {
                assert(frames_model(self.variables@) =~= fm.take(h.variable_frames as int));
            } else {
                assert(frames_model(self.variables@) =~= fm);
            }
            if h.call_stack_size < cs.len() {
                assert(self.call_stack@ =~= cs.take(h.call_stack_size as int));
            } else {
                assert(self.call_stack@ =~= cs);
            }
        }
        let ghost before = values_model(self.stack@);
        let ghost em = e@;
        self.stack.push(e);
        assert(values_model(self.stack@) =~= before.push(em));
        self.ip = h.catch_addr;
        Ok(MachineEffect::Done)
    }
}


fn process_op_label(op: &OpCode) -> (r: Option<&'static str>)
    ensures
        match process_op_name(opcode_model(*op)) {
            Some(n) => r is Some && r->Some_0@ == n,
            None => r is None,
        },
{
    match op {
        OpCode::Spawn => Some("SPAWN"),
        OpCode::Receive => Some("RECEIVE"),
        OpCode::Yield => Some("YIELD"),
        OpCode::Send(_) => Some("SEND"),
        OpCode::Monitor(_) => Some("MONITOR"),
        OpCode::Demonitor(_) => Some("DEMONITOR"),
        OpCode::Link(_) => Some("LINK"),
        OpCode::Unlink(_) => Some("UNLINK"),
        OpCode::TrapExit => Some("TRAP_EXIT"),
        OpCode::ReceiveMatch(_) => Some("RECEIVE_MATCH"),
        OpCode::Register(_) => Some("REGISTER"),
        OpCode::Unregister(_) => Some("UNREGISTER"),
        OpCode::Whereis(_) => Some("WHEREIS"),
        OpCode::SendNamed(_) => Some("SENDNAMED"),
        OpCode::StartSupervisor => Some("STARTSUPERVISOR"),
        OpCode::SuperviseChild(_) => Some("SUPERVISECHILD"),
        OpCode::RestartChild(_) => Some("RESTARTCHILD"),
        _ => None,
    }
}

fn is_host(op: &OpCode) -> (b: bool)
    ensures
        b == is_host_op(opcode_model(*op)),
{
    match op {
        OpCode::ReadFile | OpCode::WriteFile | OpCode::ReadLine | OpCode::ReadChar | OpCode::ReadInput | OpCode::AppendFile | OpCode::FileExists | OpCode::FileSize | OpCode::DeleteFile | OpCode::ListDir | OpCode::ReadBytes | OpCode::WriteBytes | OpCode::GetEnv | OpCode::SetEnv | OpCode::GetArgs | OpCode::Exec | OpCode::ExecCapture | OpCode::Exit | OpCode::GetTime | OpCode::Sleep | OpCode::FormatTime | OpCode::HttpGet | OpCode::HttpPost | OpCode::TcpConnect | OpCode::TcpListen | OpCode::TcpSend | OpCode::TcpRecv | OpCode::UdpBind | OpCode::UdpSend | OpCode::UdpRecv | OpCode::DnsResolve | OpCode::AsyncRead | OpCode::AsyncWrite | OpCode::Await | OpCode::StreamCreate | OpCode::StreamRead | OpCode::StreamWrite | OpCode::StreamClose | OpCode::JsonParse | OpCode::JsonStringify | OpCode::CsvParse | OpCode::CsvWrite | OpCode::Compress | OpCode::Decompress | OpCode::Encrypt | OpCode::Decrypt | OpCode::Hash | OpCode::DbConnect | OpCode::DbQuery | OpCode::DbExec => true,
        _ => false,
    }
}

pub(crate) fn is_value(op: &OpCode) -> (b: bool)
    ensures
        b == is_value_op(opcode_model(*op)),
{
    match op {
        OpCode::PushInt(_) | OpCode::PushFloat(_) | OpCode::PushStr(_) | OpCode::PushBool(_) => true,
        OpCode::True | OpCode::False | OpCode::Null => true,
        OpCode::Add | OpCode::Sub | OpCode::Mul | OpCode::Div => true,
        OpCode::AddF | OpCode::SubF | OpCode::MulF | OpCode::DivF => true,
        OpCode::Concat | OpCode::Print | OpCode::Dup => true,
        OpCode::Eq | OpCode::Ne | OpCode::Gt | OpCode::Lt | OpCode::Ge | OpCode::Le => true,
        OpCode::EqF | OpCode::NeF | OpCode::GtF | OpCode::LtF | OpCode::GeF | OpCode::LeF => true,
        OpCode::Not | OpCode::And | OpCode::Or => true,
        _ => false,
    }
}

fn is_data(op: &OpCode) -> (b: bool)
    ensures
        b == is_data_op(opcode_model(*op)),
{
    match op {
        OpCode::MakeList(_) | OpCode::Len | OpCode::Index | OpCode::MakeObject | OpCode::SetField(_)
        | OpCode::GetField(_) | OpCode::HasField(_) | OpCode::DeleteField(_) | OpCode::Keys => true,
        _ => false,
    }
}

fn is_control(op: &OpCode) -> (b: bool)
    ensures
        b == is_control_op(opcode_model(*op)),
{
    match op {
        OpCode::Jmp(_) | OpCode::Jz(_) | OpCode::Call { .. } | OpCode::Ret | OpCode::Store(_) | OpCode::Load(_)
        | OpCode::Delete(_) | OpCode::MakeFunction { .. } | OpCode::MakeLambda { .. } | OpCode::Capture(_)
        | OpCode::Export(_) | OpCode::CallFunction | OpCode::Try { .. } | OpCode::Throw | OpCode::EndTry
        | OpCode::Import(_) | OpCode::DumpScope => true,
        _ => false,
    }
}

impl VM {
    #[verifier::rlimit(80)]
    fn exec_control(&mut self, op: &OpCode) -> (r: Result<MachineEffect, VMError>)
        requires
            is_control_op(opcode_model(*op)),
            old(self).ip < usize::MAX,
        ensures
            same_setup(*old(self), *final(self)),
            outcome_ok(r, final(self).state(), control_step(old(self).state(), opcode_model(*op))),
    {
        match op {
            OpCode::Jmp(t) => {
                self.ip = *t;
                Ok(MachineEffect::Done)
            },
            OpCode::Jz(target) => match self.pop_value("JZ") {
                Ok(v) => {
                    let zero = match v {
                        Value::Int(0) => true,
                        Value::Bool(false) => true,
                        Value::Null => true,
                        _ => false,
                    };
                    if zero {
                        self.ip = *target;
                    }
                    Ok(MachineEffect::Done)
                },
                Err(e) => Err(e),
            },
            OpCode::Call { addr, params } => {
                let frame: Vec<(String, Value)> = Vec::new();
                assert(entries_model(frame@) =~= Seq::<(Seq<char>, ValueModel)>::empty());
                self.call(*addr, params, frame)
            },
            OpCode::Ret => {
                if self.call_stack.len() == 0 {
                    return Err(VMError::CallStackUnderflow);
                }
                if self.variables.len() <= 1 {
                    return Err(VMError::NoVariableScope);
                }
                let ghost fm = frames_model(self.variables@);
                self.variables.pop();
                assert(frames_model(self.variables@) =~= fm.drop_last());
                let a = self.call_stack.pop().unwrap();
                self.ip = a;
                Ok(MachineEffect::Done)
            },
            OpCode::Store(name) => match self.pop_value("STORE") {
                Ok(v) => {
                    if self.variables.len() == 0 {
                        return Err(VMError::NoVariableScope);
                    }
                    self.set_var(name.clone(), v);
                    Ok(MachineEffect::Done)
                },
                Err(e) => Err(e),
            },
            OpCode::Load(name) => match self.get_var(name.as_str()) {
                Ok(v) => self.push_done(v),
                Err(e) => Err(e),
            },
            OpCode::Delete(name) => {
                if self.variables.len() == 0 {
                    return Err(VMError::NoVariableScope);
                }
                let last = self.variables.len() - 1;
                let ghost fm = frames_model(self.variables@);
                assert(fm.last() == entries_model(self.variables@[last as int]@));
                match env_find(&self.variables[last], name.as_str()) {
                    None => Ok(MachineEffect::UnknownDelete(name.clone())),
                    Some(_) => {
                        let mut frame = self.variables.pop().unwrap();
                        assoc_remove(&mut frame, name.as_str());
                        self.variables.push(frame);
                        assert(frames_model(self.variables@) =~= fm.update(fm.len() - 1, assoc_del(fm.last(), name@)));
                        Ok(MachineEffect::Done)
                    },
                }
            },
            OpCode::MakeFunction { addr, params } => self.push_done(
                Value::Function { addr: *addr, params: copy_strings(params) },
            ),
            OpCode::MakeLambda { addr, params } => {
                let mut captured: Vec<(String, Value)> = Vec::new();
                std::mem::swap(&mut captured, &mut self.lambda_captures);
                assert(entries_model(self.lambda_captures@) =~= Seq::<(Seq<char>, ValueModel)>::empty());
                let closure = Value::Closure { addr: *addr, params: copy_strings(params), captured };
                let ghost before = values_model(self.stack@);
                let ghost cm = closure@;
                self.stack.push(closure);
                assert(values_model(self.stack@) =~= before.push(cm));
                Ok(MachineEffect::Done)
            },
            OpCode::Capture(name) => match self.get_var(name.as_str()) {
                Ok(v) => {
                    assoc_put(&mut self.lambda_captures, name.clone(), v);
                    Ok(MachineEffect::Done)
                },
                Err(e) => Err(e),
            },
            OpCode::Export(name) => match self.get_var(name.as_str()) {
                Ok(v) => {
                    assoc_put(&mut self.exports, name.clone(), v);
                    Ok(MachineEffect::Done)
                },
                Err(e) => Err(e),
            },
            OpCode::CallFunction => match self.pop_value("CALL_FUNCTION") {
                Ok(Value::Function { addr, params }) => {
                    let frame: Vec<(String, Value)> = Vec::new();
                    assert(entries_model(frame@) =~= Seq::<(Seq<char>, ValueModel)>::empty());
                    self.call(addr, &params, frame)
                },
                Ok(Value::Closure { addr, params, captured }) => self.call(addr, &params, captured),
                Ok(v) => Err(mismatch_one("a function or closure", "CALL_FUNCTION", &v)),
                Err(e) => Err(e),
            },
            OpCode::Try { catch_addr } => {
                let h = ExceptionHandler {
                    catch_addr: *catch_addr,
                    stack_size: self.stack.len(),
                    call_stack_size: self.call_stack.len(),
                    variable_frames: self.variables.len(),
                };
                self.try_stack.push(h);
                Ok(MachineEffect::Done)
            },
            OpCode::Throw => match self.pop_value("THROW") {
                Ok(v) => {
                    let e = match v {
                        Value::Exception { message, stack_trace } => Value::Exception { message, stack_trace },
                        Value::Str(msg) => Value::Exception { message: msg, stack_trace: trace_at_exec(self.ip) },
                        other => Value::Exception {
                            message: concat_str("Thrown value: ", kind_name(&other)),
                            stack_trace: trace_at_exec(self.ip),
                        },
                    };
                    self.throw(e)
                },
                Err(e) => Err(e),
            },
            OpCode::EndTry => {
                let _ = self.try_stack.pop();
                Ok(MachineEffect::Done)
            },
            OpCode::Import(path) => Ok(MachineEffect::Import(path.clone())),
            OpCode::DumpScope => Ok(MachineEffect::DumpScope),
            _ => Ok(MachineEffect::Done),
        }
    }

    /// Executes one instruction (not `HALT`). The instruction pointer is left
    /// to [`VM::step`], except for jumps, calls, returns and exceptions.
    pub fn execute_instruction_safe(&mut self, op: &OpCode) -> (r: Result<MachineEffect, VMError>)
        requires
            old(self).ip < usize::MAX,
        ensures
            same_setup(*old(self), *final(self)),
            outcome_ok(r, final(self).state(), exec_spec(old(self).state(), opcode_model(*op))),
    {
        if is_value(op) {
            self.exec_value(op)
        } else if is_data(op) {
            self.exec_data(op)
        } else if is_control(op) {
            self.exec_control(op)
        } else {
            match process_op_label(op) {
                Some(n) => Err(VMError::UnsupportedOperation(concat_str(n, " not supported in VM, use TinyProc scheduler"))),
                None => {
                    if is_host(op) {
                        Ok(MachineEffect::Host)
                    } else {
                        Ok(MachineEffect::Done)
                    }
                },
            }
        }
    }
}


/// The machine's program and settings are unchanged; only the counters of
/// a step may move.
pub open spec fn same_program(a: VM, b: VM) -> bool {
    &&& b.instructions == a.instructions
    &&& b.loaded_modules == a.loaded_modules
    &&& b.loading_stack == a.loading_stack
    &&& b.debug_mode == a.debug_mode
    &&& b.breakpoints == a.breakpoints
    &&& b.gc_engine == a.gc_engine
    &&& b.gc_stats_enabled == a.gc_stats_enabled
    &&& b.profile_enabled == a.profile_enabled
    &&& b.trace_enabled == a.trace_enabled
}

fn completes_exec(e: &MachineEffect) -> (b: bool)
    ensures
        b == completes(e@),
{
    match e {
        MachineEffect::Done | MachineEffect::Print(_) | MachineEffect::UnknownDelete(_) | MachineEffect::DumpScope => true,
        _ => false,
    }
}

impl VM {
    /// Whether the instruction pointer is on an instruction.
    pub fn is_running(&self) -> (b: bool)
        ensures
            b == (self.ip < self.instructions@.len()),
    {
        self.ip < self.instructions.len()
    }

    /// Whether the instruction pointer is on a `HALT`, which ends the run.
    pub fn at_halt(&self) -> (b: bool)
        ensures
            b == (self.ip < self.instructions@.len() && opcode_model(self.instructions@[self.ip as int]) is Halt),
    {
        self.ip < self.instructions.len() && matches!(self.instructions[self.ip], OpCode::Halt)
    }

    fn recover(&mut self, e: VMError) -> (r: Result<MachineEffect, VMError>)
        ensures
            same_setup(*old(self), *final(self)),
            outcome_ok(r, final(self).state(), recover(old(self).state(), e@)),
    {
        if self.try_stack.len() > 0 {
            let exception = Value::Exception { message: e.message(), stack_trace: trace_at_exec(self.ip) };
            self.throw(exception)
        } else {
            Err(e)
        }
    }

    /// One step of a run: counts the instruction, records the stack depth,
    /// executes the instruction at the instruction pointer and moves on; an
    /// error inside a `TRY` block becomes an exception thrown to its handler.
    pub fn step(&mut self) -> (r: Result<MachineEffect, VMError>)
        requires
            old(self).ip < old(self).instructions@.len(),
            !(opcode_model(old(self).instructions@[old(self).ip as int]) is Halt),
            old(self).instruction_count < usize::MAX,
        ensures
            same_program(*old(self), *final(self)),
            final(self).instruction_count == old(self).instruction_count + 1,
            final(self).max_stack_size == (if old(self).stack@.len() > old(self).max_stack_size {
                old(self).stack@.len() as usize
            } else {
                old(self).max_stack_size
            }),
            outcome_ok(
                r,
                final(self).state(),
                step_spec(old(self).state(), opcode_model(old(self).instructions@[old(self).ip as int])),
            ),
    {
        self.instruction_count = self.instruction_count + 1;
        if self.stack.len() > self.max_stack_size {
            self.max_stack_size = self.stack.len();
        }
        let _n = self.instructions.len();
        let instruction = self.instructions[self.ip].copy();
        let ip0 = self.ip;
        match self.execute_instruction_safe(&instruction) {
            Ok(e) => {
                if completes_exec(&e) && self.ip == ip0 {
                    self.ip = ip0 + 1;
                }
                Ok(e)
            },
            Err(e) => self.recover(e),
        }
    }

    /// Completes an arithmetic request: pushes the host's float and moves on.
    pub fn complete_float(&mut self, bits: u64)
        requires
            old(self).ip < usize::MAX,
        ensures
            same_setup(*old(self), *final(self)),
            final(self).state() == (MState {
                stack: old(self).state().stack.push(ValueModel::Float(bits)),
                ip: old(self).state().ip + 1,
                ..old(self).state()
            }),
    {
        let _ = self.push_done(Value::Float(bits));
        self.ip = self.ip + 1;
    }

    /// Completes a comparison request: pushes 1 or 0 and moves on.
    pub fn complete_test(&mut self, result: bool)
        requires
            old(self).ip < usize::MAX,
        ensures
            same_setup(*old(self), *final(self)),
            final(self).state() == (MState {
                stack: old(self).state().stack.push(truth(result)),
                ip: old(self).state().ip + 1,
                ..old(self).state()
            }),
    {
        let _ = self.push_done(truth_value(result));
        self.ip = self.ip + 1;
    }

    /// Completes an instruction that the host executed (or an import): on
    /// success the run moves on; a failure is handled as any other.
    pub fn finish_host(&mut self, result: Result<(), VMError>) -> (r: Result<MachineEffect, VMError>)
        requires
            old(self).ip < usize::MAX,
        ensures
            same_setup(*old(self), *final(self)),
            match result {
                Ok(()) => r is Ok && r->Ok_0@ == MEffect::Done && final(self).state() == (MState {
                    ip: old(self).state().ip + 1,
                    ..old(self).state()
                }),
                Err(e) => outcome_ok(r, final(self).state(), recover(old(self).state(), e@)),
            },
    {
        match result {
            Ok(()) => {
                self.ip = self.ip + 1;
                Ok(MachineEffect::Done)
            },
            Err(e) => self.recover(e),
        }
    }

    /// The instruction count, the largest stack depth seen and the current
    /// stack depth.
    pub fn get_stats(&self) -> (r: (usize, usize, usize))
        ensures
            r == (self.instruction_count, self.max_stack_size, self.stack@.len() as usize),
    {
        (self.instruction_count, self.max_stack_size, self.stack.len())
    }

    /// The collector's statistics.
    pub fn get_gc_stats(&self) -> (s: GcStats)
        ensures
            match self.gc_engine {
                GcEngine::NoGc(g) => s == g.spec_stats(),
                GcEngine::MarkSweep(g) => s == g.spec_stats(),
            },
    {
        self.gc_engine.stats()
    }

    /// Adds a breakpoint that is not there yet: the breakpoints, with the
    /// new one, are then sorted.
    pub fn add_breakpoint(&mut self, address: usize)
        ensures
            breakpoint_added(old(self).breakpoints@, final(self).breakpoints@, address),
            final(self).state() == old(self).state(),
            final(self).instructions == old(self).instructions,
    {
        broadcast use vstd::seq_lib::group_to_multiset_ensures;
        let mut k: usize = 0;
        while k < self.breakpoints.len()
            invariant
                k <= self.breakpoints@.len(),
                self.breakpoints == old(self).breakpoints,
                forall|j: int| 0 <= j < k ==> self.breakpoints@[j] != address,
            decreases self.breakpoints.len() - k,
        {
            if self.breakpoints[k] == address {
                return;
            }
            k = k + 1;
        }
        let ghost b = self.breakpoints@;
        assert(!b.contains(address));
        self.breakpoints.push(address);
        let ghost m = self.breakpoints@.to_multiset();
        assert(m == b.to_multiset().insert(address));
        let n = self.breakpoints.len();
        let mut i: usize = 1;
        assert(sorted_addresses(self.breakpoints@.take(1)));
        while i < n
            invariant
                1 <= i <= n,
                self.breakpoints@.len() == n,
                sorted_addresses(self.breakpoints@.take(i as int)),
                self.breakpoints@.to_multiset() == m,
                self.state() == old(self).state(),
                self.instructions == old(self).instructions,
            decreases n - i,
        {
            let ghost before = self.breakpoints@;
            let x = self.breakpoints.remove(i);
            let ghost rest = self.breakpoints@;
            assert(rest == before.remove(i as int));
            let mut j: usize = i;
            while j > 0 && self.breakpoints[j - 1] > x
                invariant
                    j <= i,
                    i < n,
                    self.breakpoints@ == rest,
                    rest.len() == n - 1,
                    forall|k: int| j <= k < i ==> rest[k] > x,
                decreases j,
            {
                j = j - 1;
            }
            self.breakpoints.insert(j, x);
            proof {
                let after = self.breakpoints@;
                assert(after == rest.insert(j as int, x));
                let t = after.take(i + 1);
                let pre = before.take(i as int);
                assert(forall|k: int| 0 <= k < i ==> rest[k] == before[k]);
                assert(forall|k: int| 0 <= k < i ==> pre[k] == before[k]);
                assert(forall|k: int| 0 <= k <= i ==> t[k] == after[k]);
                if j > 0 {
                    assert(rest[j - 1] <= x);
                }
                assert forall|p: int, q: int| 0 <= p < q < i + 1 implies #[trigger] t[p] <= #[trigger] t[q] by {
                    if p < j && q < j {
                        assert(pre[p] <= pre[q]);
                    } else if p < j && q == j {
                        assert(pre[p] <= pre[j - 1]);
                    } else if p < j {
                        assert(pre[p] <= pre[q - 1]);
                    } else if p == j {
                        assert(rest[q - 1] > x);
                    } else {
                        assert(pre[p - 1] <= pre[q - 1]);
                    }
                }
                assert(sorted_addresses(after.take(i + 1)));
                vstd::seq_lib::to_multiset_insert(rest, j as int, x);
                vstd::seq_lib::to_multiset_remove(before, i as int);
                assert(after.to_multiset() == rest.to_multiset().insert(x));
                assert(rest.to_multiset() == before.to_multiset().remove(before[i as int]));
                assert(x == before[i as int]);
                assert(before.contains(x));
                vstd::seq_lib::to_multiset_contains(before, x);
                broadcast use vstd::multiset::group_multiset_axioms;
                assert(after.to_multiset() =~= m);
            }
            i = i + 1;
        }
        assert(self.breakpoints@.take(n as int) =~= self.breakpoints@);
    }

    /// Removes a breakpoint.
    pub fn remove_breakpoint(&mut self, address: usize)
        ensures
            final(self).breakpoints@ == old(self).breakpoints@.filter(|x: usize| x != address),
            final(self).state() == old(self).state(),
            final(self).instructions == old(self).instructions,
    {
        let mut kept: Vec<usize> = Vec::new();
        let mut i: usize = 0;
        while i < self.breakpoints.len()
            invariant
                i <= self.breakpoints@.len(),
                self.breakpoints == old(self).breakpoints,
                kept@ == self.breakpoints@.take(i as int).filter(|x: usize| x != address),
            decreases self.breakpoints.len() - i,
        {
            assert(self.breakpoints@.take(i + 1).drop_last() =~= self.breakpoints@.take(i as int));
            proof {
                reveal(Seq::filter);
            }
            if self.breakpoints[i] != address {
                kept.push(self.breakpoints[i]);
            }
            i = i + 1;
        }
        assert(self.breakpoints@.take(self.breakpoints@.len() as int) =~= self.breakpoints@);
        self.breakpoints = kept;
    }

    /// Runs a collection: marks from the stack and sweeps; gives the number
    /// of objects collected.
    pub fn trigger_gc(&mut self) -> (n: usize)
        requires
            match old(self).gc_engine {
                GcEngine::NoGc(g) => g.wf() && g.spec_stats().collections_performed < usize::MAX,
                GcEngine::MarkSweep(g) => g.wf() && g.spec_stats().collections_performed < usize::MAX,
            },
        ensures
            final(self).state() == old(self).state(),
            final(self).instructions == old(self).instructions,
            match (old(self).gc_engine, final(self).gc_engine) {
                (GcEngine::NoGc(a), GcEngine::NoGc(b)) => n == 0 && b.wf() && b.spec_stats().collections_performed
                    == a.spec_stats().collections_performed + 1,
                (GcEngine::MarkSweep(a), GcEngine::MarkSweep(b)) => b.wf() && b.spec_stats().collections_performed
                    == a.spec_stats().collections_performed + 1 && b.spec_stats().total_freed
                    == a.spec_stats().total_freed + n,
                _ => false,
            },
    {
        match &mut self.gc_engine {
            GcEngine::NoGc(g) => {
                g.mark_from_roots(self.stack.as_slice());
                g.sweep()
            },
            GcEngine::MarkSweep(g) => {
                g.mark_from_roots(self.stack.as_slice());
                g.sweep()
            },
        }
    }
}


/// A value stored under a name reads back: `STORE name` then `LOAD name`
/// leaves the stack as it was and moves two instructions on.
pub proof fn law_store_then_load(s: MState, name: Seq<char>)
    requires
        s.stack.len() > 0,
        s.frames.len() > 0,
    ensures
        step_spec(s, OpCodeModel::Store(name)) is Ok,
        ({
            let s1 = step_spec(s, OpCodeModel::Store(name))->Ok_0.0;
            &&& step_spec(s1, OpCodeModel::Load(name)) is Ok
            &&& step_spec(s1, OpCodeModel::Load(name))->Ok_0.0.stack == s.stack
            &&& step_spec(s1, OpCodeModel::Load(name))->Ok_0.0.ip == s.ip + 2
        }),
{
    let v = s.stack.last();
    let t = MState { stack: s.stack.drop_last(), ..s };
    lemma_find_after_set(t.frames.last(), name, v);
    let s1 = step_spec(s, OpCodeModel::Store(name))->Ok_0.0;
    assert(s1.frames.last() == assoc_set(t.frames.last(), name, v));
    assert(s1.stack.push(v) =~= s.stack);
}

/// A call returns to the instruction after it: `CALL` then `RET` restores
/// the call stack and the frames, with the arguments gone from the stack
/// (for a callee that is neither the call itself nor the instruction after
/// it).
pub proof fn law_call_then_return(s: MState, addr: usize, params: Seq<Seq<char>>)
    requires
        s.stack.len() >= params.len(),
        s.frames.len() >= 1,
        0 <= s.ip < usize::MAX,
        addr != s.ip,
        addr != s.ip + 1,
    ensures
        step_spec(s, OpCodeModel::Call { addr, params }) is Ok,
        ({
            let s1 = step_spec(s, OpCodeModel::Call { addr, params })->Ok_0.0;
            &&& s1.ip == addr
            &&& step_spec(s1, OpCodeModel::Ret) is Ok
            &&& step_spec(s1, OpCodeModel::Ret)->Ok_0.0.ip == s.ip + 1
            &&& step_spec(s1, OpCodeModel::Ret)->Ok_0.0.frames == s.frames
            &&& step_spec(s1, OpCodeModel::Ret)->Ok_0.0.call_stack == s.call_stack
            &&& step_spec(s1, OpCodeModel::Ret)->Ok_0.0.stack == s.stack.take(s.stack.len() - params.len())
        }),
{
    let s1 = step_spec(s, OpCodeModel::Call { addr, params })->Ok_0.0;
    assert(s1.frames.drop_last() =~= s.frames);
    assert(s1.call_stack.drop_last() =~= s.call_stack);
}

/// An exception thrown inside a `TRY` block lands in its handler: after
/// `TRY catch_addr`, whatever the block pushed, `THROW` of a string jumps to
/// `catch_addr` with the stack as it was at `TRY` plus the exception, and
/// the call stack, frames and handlers as they were (for a handler that is
/// not the instruction after the `TRY`).
pub proof fn law_throw_lands_in_handler(s: MState, catch_addr: usize, pushed: Seq<ValueModel>, msg: Seq<char>)
    requires
        0 <= s.ip < usize::MAX,
        catch_addr != s.ip + 1,
        s.stack.len() <= usize::MAX,
        s.call_stack.len() <= usize::MAX,
        s.frames.len() <= usize::MAX,
    ensures
        step_spec(s, OpCodeModel::Try { catch_addr }) is Ok,
        ({
            let s1 = step_spec(s, OpCodeModel::Try { catch_addr })->Ok_0.0;
            let s2 = MState { stack: s1.stack + pushed.push(ValueModel::Str(msg)), ..s1 };
            &&& step_spec(s2, OpCodeModel::Throw) is Ok
            &&& step_spec(s2, OpCodeModel::Throw)->Ok_0.0.ip == catch_addr
            &&& step_spec(s2, OpCodeModel::Throw)->Ok_0.0.stack == s.stack.push(
                ValueModel::Exception { message: msg, stack_trace: trace_at(s.ip + 1) },
            )
            &&& step_spec(s2, OpCodeModel::Throw)->Ok_0.0.handlers == s.handlers
            &&& step_spec(s2, OpCodeModel::Throw)->Ok_0.0.frames == s.frames
            &&& step_spec(s2, OpCodeModel::Throw)->Ok_0.0.call_stack == s.call_stack
        }),
{
    let s1 = step_spec(s, OpCodeModel::Try { catch_addr })->Ok_0.0;
    let s2 = MState { stack: s1.stack + pushed.push(ValueModel::Str(msg)), ..s1 };
    assert(s1.handlers.drop_last() =~= s.handlers);
    let t = MState { stack: s2.stack.drop_last(), ..s2 };
    assert(s2.stack.last() == ValueModel::Str(msg));
    assert(t.stack.take(s.stack.len() as int) =~= s.stack);
    assert(s.frames.take(s.frames.len() as int) =~= s.frames);
    assert(s.call_stack.take(s.call_stack.len() as int) =~= s.call_stack);
}

proof fn lemma_index_exists(m: Seq<(Seq<char>, ValueModel)>, f: Seq<char>)
    ensures
        (assoc_index(m, f) is Some) <==> (exists|i: int| 0 <= i < m.len() && #[trigger] m[i].0 == f),
    decreases m.len(),
{
    if m.len() > 0 {
        lemma_index_exists(m.drop_first(), f);
        if m[0].0 != f {
            if exists|i: int| 0 <= i < m.len() && #[trigger] m[i].0 == f {
                let i = choose|i: int| 0 <= i < m.len() && #[trigger] m[i].0 == f;
                assert(m.drop_first()[i - 1].0 == f);
            }
            if exists|i: int| 0 <= i < m.drop_first().len() && #[trigger] m.drop_first()[i].0 == f {
                let i = choose|i: int| 0 <= i < m.drop_first().len() && #[trigger] m.drop_first()[i].0 == f;
                assert(m[i + 1].0 == f);
            }
        } else {
            assert(m[0].0 == f);
        }
    }
}

/// `HAS_FIELD f` replaces the object on top of the stack by 1 when one of
/// its fields is named `f`, and by 0 otherwise.
pub proof fn law_has_field_tells_presence(s: MState, m: Seq<(Seq<char>, ValueModel)>, f: Seq<char>)
    requires
        s.stack.len() > 0,
        s.stack.last() == ValueModel::Object(m),
    ensures
        exec_spec(s, OpCodeModel::HasField(f)) == Ok::<(MState, MEffect), (MState, VMErrorModel)>(
            (
                MState {
                    stack: s.stack.drop_last().push(
                        ValueModel::Int(
                            if exists|i: int| 0 <= i < m.len() && #[trigger] m[i].0 == f {
                                1
                            } else {
                                0
                            },
                        ),
                    ),
                    ..s
                },
                MEffect::Done,
            ),
        ),
{
    lemma_index_exists(m, f);
}

/// After `SET_FIELD f` on an object, `HAS_FIELD f` finds the field: it
/// leaves 1 on top of the stack.
pub proof fn law_set_field_then_has_field(s: MState, m: Seq<(Seq<char>, ValueModel)>, v: ValueModel, f: Seq<char>)
    requires
        s.stack.len() >= 2,
        s.stack.last() == v,
        s.stack[s.stack.len() - 2] == ValueModel::Object(m),
    ensures
        exec_spec(s, OpCodeModel::SetField(f)) is Ok,
        exec_spec(exec_spec(s, OpCodeModel::SetField(f))->Ok_0.0, OpCodeModel::HasField(f)) is Ok,
        exec_spec(exec_spec(s, OpCodeModel::SetField(f))->Ok_0.0, OpCodeModel::HasField(f))->Ok_0.0.stack.last()
            == ValueModel::Int(1),
{
    let m2 = assoc_set(m, f, v);
    lemma_index_exists(m, f);
    lemma_index_exists(m2, f);
    let k = match assoc_index(m, f) {
        Some(i) => {
            lemma_index_at(m, f);
            i
        },
        None => m.len() as int,
    };
    assert(0 <= k < m2.len() && m2[k].0 == f);
    assert(assoc_index(m2, f) is Some);
    let t = exec_spec(s, OpCodeModel::SetField(f))->Ok_0.0;
    assert(t.stack.last() == ValueModel::Object(m2));
}

proof fn lemma_index_at(m: Seq<(Seq<char>, ValueModel)>, f: Seq<char>)
    requires
        assoc_index(m, f) is Some,
    ensures
        0 <= assoc_index(m, f)->Some_0 < m.len(),
        m[assoc_index(m, f)->Some_0].0 == f,
    decreases m.len(),
{
    if m[0].0 != f {
        lemma_index_at(m.drop_first(), f);
    }
}


/// After `SET_FIELD f` puts `v` into an object, `GET_FIELD f` gives `v`
/// back: it leaves `v` on top of the stack.
pub proof fn law_set_field_then_get_field(s: MState, m: Seq<(Seq<char>, ValueModel)>, v: ValueModel, f: Seq<char>)
    requires
        s.stack.len() >= 2,
        s.stack.last() == v,
        s.stack[s.stack.len() - 2] == ValueModel::Object(m),
    ensures
        exec_spec(s, OpCodeModel::SetField(f)) is Ok,
        exec_spec(exec_spec(s, OpCodeModel::SetField(f))->Ok_0.0, OpCodeModel::GetField(f)) is Ok,
        exec_spec(exec_spec(s, OpCodeModel::SetField(f))->Ok_0.0, OpCodeModel::GetField(f))->Ok_0.0.stack.last()
            == v,
{
    crate::vm::env::lemma_find_after_set(m, f, v);
    let t = exec_spec(s, OpCodeModel::SetField(f))->Ok_0.0;
    assert(t.stack.last() == ValueModel::Object(assoc_set(m, f, v)));
}


/// After `DELETE_FIELD f` on an object in which no field name occurs twice,
/// `HAS_FIELD f` no longer finds the field: it leaves 0 on top of the stack.
pub proof fn law_delete_field_then_has_field(s: MState, m: Seq<(Seq<char>, ValueModel)>, f: Seq<char>)
    requires
        s.stack.len() >= 1,
        s.stack.last() == ValueModel::Object(m),
        forall|i: int, j: int| 0 <= i < j < m.len() ==> m[i].0 != m[j].0,
    ensures
        exec_spec(s, OpCodeModel::DeleteField(f)) is Ok,
        exec_spec(exec_spec(s, OpCodeModel::DeleteField(f))->Ok_0.0, OpCodeModel::HasField(f)) is Ok,
        exec_spec(exec_spec(s, OpCodeModel::DeleteField(f))->Ok_0.0, OpCodeModel::HasField(f))->Ok_0.0.stack.last()
            == ValueModel::Int(0),
{
    let m2 = assoc_del(m, f);
    match assoc_index(m, f) {
        Some(k) => {
            lemma_index_at(m, f);
            assert forall|j: int| 0 <= j < m2.len() implies #[trigger] m2[j].0 != f by {
                if j < k {
                    assert(m2[j] == m[j]);
                } else {
                    assert(m2[j] == m[j + 1]);
                }
            }
        },
        None => {
            lemma_index_exists(m, f);
            assert forall|j: int| 0 <= j < m2.len() implies #[trigger] m2[j].0 != f by {
                assert(m2[j] == m[j]);
            }
        },
    }
    lemma_index_exists(m2, f);
    assert(assoc_index(m2, f) is None);
    let t = exec_spec(s, OpCodeModel::DeleteField(f))->Ok_0.0;
    assert(t.stack.last() == ValueModel::Object(m2));
}

/// `MAKE_LIST n` followed by `PUSH_INT k` and `INDEX`, for `k < n`, leaves
/// the value that stood `k`-th among the `n` values the list was made of.
pub proof fn law_make_list_then_index(s: MState, n: usize, k: i64)
    requires
        n <= s.stack.len(),
        0 <= k < n,
    ensures
        exec_spec(s, OpCodeModel::MakeList(n)) is Ok,
        ({
            let t = exec_spec(s, OpCodeModel::MakeList(n))->Ok_0.0;
            let u = exec_spec(t, OpCodeModel::PushInt(k))->Ok_0.0;
            &&& exec_spec(u, OpCodeModel::Index) is Ok
            &&& exec_spec(u, OpCodeModel::Index)->Ok_0.0.stack.last() == s.stack[s.stack.len() - n + k]
        }),
{
    let t = exec_spec(s, OpCodeModel::MakeList(n))->Ok_0.0;
    let l = s.stack.skip(s.stack.len() - n);
    assert(t.stack.last() == ValueModel::List(l));
    let u = exec_spec(t, OpCodeModel::PushInt(k))->Ok_0.0;
    assert(u.stack.last() == ValueModel::Int(k));
    assert(u.stack.drop_last() =~= t.stack);
    assert((k as usize) == k);
    assert(l[k as int] == s.stack[s.stack.len() - n + k]);
}

} // verus!
