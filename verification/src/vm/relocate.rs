//! Relocation of an imported module: its code is appended after the
//! importing program's, so every code address in it, and in the functions
//! it exports, moves by the length of that program.
use vstd::prelude::*;
use crate::vm::machine::VM;
use crate::vm::opcode::{OpCode, OpCodeModel, opcode_model};
use crate::vm::value::{Value, ValueModel, copy_strings, entries_model, values_model};

verus! {

/// An instruction moved by `base`: jump, call, function and handler
/// addresses grow by `base` (wrapping, as the release build computes).
pub open spec fn relocate_op(op: OpCodeModel, base: usize) -> OpCodeModel {
    match op {
        OpCodeModel::Jmp(a) => OpCodeModel::Jmp(a.wrapping_add(base)),
        OpCodeModel::Jz(a) => OpCodeModel::Jz(a.wrapping_add(base)),
        OpCodeModel::Call { addr, params } => OpCodeModel::Call { addr: addr.wrapping_add(base), params },
        OpCodeModel::MakeFunction { addr, params } => OpCodeModel::MakeFunction { addr: addr.wrapping_add(base), params },
        OpCodeModel::MakeLambda { addr, params } => OpCodeModel::MakeLambda { addr: addr.wrapping_add(base), params },
        OpCodeModel::Try { catch_addr } => OpCodeModel::Try { catch_addr: catch_addr.wrapping_add(base) },
        _ => op,
    }
}

/// `b` is `a` moved by `base`: function and closure addresses grow by
/// `base`, inside lists, objects and captured environments too; every other
/// value stays as it is.
pub open spec fn relocated(a: ValueModel, b: ValueModel, base: usize) -> bool
    decreases a,
{
    match a {
        ValueModel::Function { addr, params } => b == ValueModel::Function { addr: addr.wrapping_add(base), params },
        ValueModel::Closure { addr, params, captured: xs } => match b {
            ValueModel::Closure { addr: a2, params: p2, captured: ys } => a2 == addr.wrapping_add(base) && p2 == params
                && xs.len() == ys.len() && forall|i: int|
                0 <= i < xs.len() ==> (#[trigger] xs[i]).0 == ys[i].0 && relocated(xs[i].1, ys[i].1, base),
            _ => false,
        },
        ValueModel::List(xs) => match b {
            ValueModel::List(ys) => xs.len() == ys.len() && forall|i: int|
                0 <= i < xs.len() ==> relocated(#[trigger] xs[i], ys[i], base),
            _ => false,
        },
        ValueModel::Object(xs) => match b {
            ValueModel::Object(ys) => xs.len() == ys.len() && forall|i: int|
                0 <= i < xs.len() ==> (#[trigger] xs[i]).0 == ys[i].0 && relocated(xs[i].1, ys[i].1, base),
            _ => false,
        },
        _ => b == a,
    }
}

fn relocate_entries(xs: &Vec<(String, Value)>, base_addr: usize, Ghost(outer): Ghost<Value>) -> (r: Vec<(String, Value)>)
    requires
        forall|i: int| 0 <= i < xs@.len() ==> decreases_to!(outer => #[trigger] xs@[i].1),
    ensures
        r@.len() == xs@.len(),
        forall|i: int|
            0 <= i < xs@.len() ==> (#[trigger] entries_model(xs@)[i]).0 == entries_model(r@)[i].0 && relocated(
                entries_model(xs@)[i].1,
                entries_model(r@)[i].1,
                base_addr,
            ),
    decreases outer, 0nat,
{
    let mut r: Vec<(String, Value)> = Vec::new();
    let mut i: usize = 0;
    while i < xs.len()
        invariant
            i <= xs@.len(),
            r@.len() == i,
            forall|k: int| 0 <= k < xs@.len() ==> decreases_to!(outer => #[trigger] xs@[k].1),
            forall|k: int|
                0 <= k < i ==> (#[trigger] entries_model(xs@)[k]).0 == entries_model(r@)[k].0 && relocated(
                    entries_model(xs@)[k].1,
                    entries_model(r@)[k].1,
                    base_addr,
                ),
        decreases xs.len() - i,
    {
        assert(decreases_to!(outer => xs@[i as int].1));
        let v = adjust_value(&xs[i].1, base_addr);
        let ghost before = r@;
        r.push((xs[i].0.clone(), v));
        assert forall|k: int| 0 <= k < i + 1 implies (#[trigger] entries_model(xs@)[k]).0 == entries_model(r@)[k].0
            && relocated(entries_model(xs@)[k].1, entries_model(r@)[k].1, base_addr) by {
            if k < i {
                assert(r@[k] == before[k]);
            }
        }
        i = i + 1;
    }
    r
}

/// A value moved by `base_addr` (see [`relocated`]).
pub fn adjust_value(value: &Value, base_addr: usize) -> (r: Value)
    ensures
        relocated(value@, r@, base_addr),
    decreases value, 1nat,
{
    match value {
        Value::Function { addr, params } => {
            let r = Value::Function { addr: addr.wrapping_add(base_addr), params: copy_strings(params) };
            assert(relocated(value@, r@, base_addr));
            r
        },
        Value::Closure { addr, params, captured } => {
            assert forall|k: int| 0 <= k < captured@.len() implies decreases_to!(*value => #[trigger] captured@[k].1) by {
                assert(decreases_to!(*value => captured@[k]));
            }
            let c = relocate_entries(captured, base_addr, Ghost(*value));
            let ghost xs = entries_model(captured@);
            let ghost ys = entries_model(c@);
            assert(xs.len() == ys.len());
            let out = Value::Closure { addr: addr.wrapping_add(base_addr), params: copy_strings(params), captured: c };
            assert(forall|k: int| 0 <= k < xs.len() ==> (#[trigger] xs[k]).0 == ys[k].0 && relocated(xs[k].1, ys[k].1, base_addr));
            assert(relocated(value@, out@, base_addr));
            out
        },
        Value::List(items) => {
            assert forall|k: int| 0 <= k < items@.len() implies decreases_to!(*value => #[trigger] items@[k]) by {
                assert(decreases_to!(*value => items@[k]));
            }
            let mut r: Vec<Value> = Vec::new();
            let mut i: usize = 0;
            while i < items.len()
                invariant
                    i <= items@.len(),
                    r@.len() == i,
                    *value == Value::List(*items),
                    forall|k: int| 0 <= k < items@.len() ==> decreases_to!(*value => #[trigger] items@[k]),
                    forall|k: int|
                        0 <= k < i ==> relocated(#[trigger] values_model(items@)[k], values_model(r@)[k], base_addr),
                decreases items.len() - i,
            {
                assert(decreases_to!(*value => items@[i as int]));
                let v = adjust_value(&items[i], base_addr);
                let ghost before = r@;
                r.push(v);
                assert forall|k: int| 0 <= k < i + 1 implies relocated(
                    #[trigger] values_model(items@)[k],
                    values_model(r@)[k],
                    base_addr,
                ) by {
                    if k < i {
                        assert(r@[k] == before[k]);
                    }
                }
                i = i + 1;
            }
            let ghost xs = values_model(items@);
            let ghost ys = values_model(r@);
            assert(value@ == ValueModel::List(xs));
            let out = Value::List(r);
            assert(out@ == ValueModel::List(ys));
            assert(xs.len() == ys.len());
            assert(forall|k: int| 0 <= k < xs.len() ==> relocated(#[trigger] xs[k], ys[k], base_addr));
            assert(relocated(value@, out@, base_addr));
            out
        },
        Value::Object(entries) => {
            assert forall|k: int| 0 <= k < entries@.len() implies decreases_to!(*value => #[trigger] entries@[k].1) by {
                assert(decreases_to!(*value => entries@[k]));
            }
            let c = relocate_entries(entries, base_addr, Ghost(*value));
            let ghost xs = entries_model(entries@);
            let ghost ys = entries_model(c@);
            assert(xs.len() == ys.len());
            let out = Value::Object(c);
            assert(forall|k: int| 0 <= k < xs.len() ==> (#[trigger] xs[k]).0 == ys[k].0 && relocated(xs[k].1, ys[k].1, base_addr));
            assert(relocated(value@, out@, base_addr));
            out
        },
        other => {
            let r = other.copy();
            assert(relocated(value@, r@, base_addr));
            r
        },
    }
}

impl VM {
    /// An instruction of an imported module moved to `base_addr` (see
    /// [`relocate_op`]).
    pub fn adjust_instruction_addresses(&self, instruction: &OpCode, base_addr: usize) -> (r: OpCode)
        ensures
            opcode_model(r) == relocate_op(opcode_model(*instruction), base_addr),
    {
        match instruction {
            OpCode::Jmp(a) => OpCode::Jmp(a.wrapping_add(base_addr)),
            OpCode::Jz(a) => OpCode::Jz(a.wrapping_add(base_addr)),
            OpCode::Call { addr, params } => OpCode::Call { addr: addr.wrapping_add(base_addr), params: copy_strings(params) },
            OpCode::MakeFunction { addr, params } => OpCode::MakeFunction {
                addr: addr.wrapping_add(base_addr),
                params: copy_strings(params),
            },
            OpCode::MakeLambda { addr, params } => OpCode::MakeLambda {
                addr: addr.wrapping_add(base_addr),
                params: copy_strings(params),
            },
            OpCode::Try { catch_addr } => OpCode::Try { catch_addr: catch_addr.wrapping_add(base_addr) },
            other => other.copy(),
        }
    }

    /// A value exported by an imported module moved to `base_addr` (see
    /// [`relocated`]).
    pub fn adjust_value_addresses(&self, value: Value, base_addr: usize) -> (r: Value)
        ensures
            relocated(value@, r@, base_addr),
    {
        adjust_value(&value, base_addr)
    }
}

} // verus!
