//! Equality of values as `==` on values compares them: floats as IEEE-754
//! numbers, objects and captured environments as maps.
use vstd::prelude::*;
use crate::text::str_eq;
use crate::vm::env::{assoc_index, env_find};
use crate::vm::value::{Value, ValueModel, entries_model, is_float_zero, strings_model, values_model};

verus! {

/// Whether a bit pattern encodes a NaN: all exponent bits set and a
/// non-zero fraction.
pub open spec fn is_nan_bits(x: u64) -> bool {
    (x & 0x7ff0_0000_0000_0000u64) == 0x7ff0_0000_0000_0000u64 && (x & 0x000f_ffff_ffff_ffffu64) != 0
}

/// IEEE-754 equality of two bit patterns: no NaN equals anything, the two
/// zeros are equal, and otherwise equal numbers have equal bits.
pub open spec fn float_eq(x: u64, y: u64) -> bool {
    !is_nan_bits(x) && !is_nan_bits(y) && (x == y || (is_float_zero(x) && is_float_zero(y)))
}

/// Equality of two values: the same kind with equal contents; lists
/// element by element; objects and captured environments as maps (the same
/// number of entries, and each key of the first found in the second with an
/// equal value).
pub open spec fn value_eq(a: ValueModel, b: ValueModel) -> bool
    decreases a,
{
    match a {
        ValueModel::Int(x) => b == ValueModel::Int(x),
        ValueModel::Float(x) => match b {
            ValueModel::Float(y) => float_eq(x, y),
            _ => false,
        },
        ValueModel::Str(x) => b == ValueModel::Str(x),
        ValueModel::Bool(x) => b == ValueModel::Bool(x),
        ValueModel::Null => b == ValueModel::Null,
        ValueModel::List(xs) => match b {
            ValueModel::List(ys) => xs.len() == ys.len() && forall|i: int|
                0 <= i < xs.len() ==> value_eq(#[trigger] xs[i], ys[i]),
            _ => false,
        },
        ValueModel::Object(xs) => match b {
            ValueModel::Object(ys) => xs.len() == ys.len() && forall|i: int|
                0 <= i < xs.len() ==> match assoc_index(ys, (#[trigger] xs[i]).0) {
                    Some(j) => value_eq(xs[i].1, ys[j].1),
                    None => false,
                },
            _ => false,
        },
        ValueModel::Bytes(x) => b == ValueModel::Bytes(x),
        ValueModel::Connection(x) => b == ValueModel::Connection(x),
        ValueModel::Stream(x) => b == ValueModel::Stream(x),
        ValueModel::Future(x) => b == ValueModel::Future(x),
        ValueModel::Function { addr, params } => b == ValueModel::Function { addr, params },
        ValueModel::Closure { addr, params, captured: xs } => match b {
            ValueModel::Closure { addr: a2, params: p2, captured: ys } => addr == a2 && params == p2 && xs.len()
                == ys.len() && forall|i: int|
                0 <= i < xs.len() ==> match assoc_index(ys, (#[trigger] xs[i]).0) {
                    Some(j) => value_eq(xs[i].1, ys[j].1),
                    None => false,
                },
            _ => false,
        },
        ValueModel::Exception { message, stack_trace } => b == ValueModel::Exception { message, stack_trace },
    }
}

/// IEEE-754 equality of two bit patterns.
pub fn floats_equal(x: u64, y: u64) -> (r: bool)
    ensures
        r == float_eq(x, y),
{
    let nan_x = (x & 0x7ff0_0000_0000_0000u64) == 0x7ff0_0000_0000_0000u64 && (x & 0x000f_ffff_ffff_ffffu64) != 0;
    let nan_y = (y & 0x7ff0_0000_0000_0000u64) == 0x7ff0_0000_0000_0000u64 && (y & 0x000f_ffff_ffff_ffffu64) != 0;
    !nan_x && !nan_y && (x == y || ((x == 0 || x == 0x8000_0000_0000_0000u64) && (y == 0 || y
        == 0x8000_0000_0000_0000u64)))
}

/// Whether two vectors of strings hold the same strings in the same order.
pub fn strings_same(a: &Vec<String>, b: &Vec<String>) -> (r: bool)
    ensures
        r == (strings_model(a@) == strings_model(b@)),
{
    let ghost x = strings_model(a@);
    let ghost y = strings_model(b@);
    if a.len() != b.len() {
        assert(x.len() != y.len());
        return false;
    }
    let mut i: usize = 0;
    while i < a.len()
        invariant
            i <= a@.len(),
            a@.len() == b@.len(),
            x == strings_model(a@),
            y == strings_model(b@),
            forall|j: int| 0 <= j < i ==> x[j] == y[j],
        decreases a.len() - i,
    {
        if !str_eq(a[i].as_str(), b[i].as_str()) {
            assert(x[i as int] != y[i as int]);
            return false;
        }
        i = i + 1;
    }
    assert(x =~= y);
    true
}

fn bytes_same(a: &Vec<u8>, b: &Vec<u8>) -> (r: bool)
    ensures
        r == (a@ == b@),
{
    if a.len() != b.len() {
        return false;
    }
    let mut i: usize = 0;
    while i < a.len()
        invariant
            i <= a@.len(),
            a@.len() == b@.len(),
            forall|j: int| 0 <= j < i ==> a@[j] == b@[j],
        decreases a.len() - i,
    {
        if a[i] != b[i] {
            return false;
        }
        i = i + 1;
    }
    assert(a@ =~= b@);
    true
}

/// Map equality of two association lists under [`value_eq`].
fn entries_same(xs: &Vec<(String, Value)>, ys: &Vec<(String, Value)>, Ghost(outer): Ghost<Value>) -> (r: bool)
    requires
        forall|i: int| 0 <= i < xs@.len() ==> decreases_to!(outer => #[trigger] xs@[i].1),
    ensures
        r == (entries_model(xs@).len() == entries_model(ys@).len() && forall|i: int|
            0 <= i < entries_model(xs@).len() ==> match assoc_index(
                entries_model(ys@),
                (#[trigger] entries_model(xs@)[i]).0,
            ) {
                Some(j) => value_eq(entries_model(xs@)[i].1, entries_model(ys@)[j].1),
                None => false,
            }),
    decreases outer, 0nat,
{
    let ghost sx = entries_model(xs@);
    let ghost sy = entries_model(ys@);
    if xs.len() != ys.len() {
        return false;
    }
    let mut i: usize = 0;
    while i < xs.len()
        invariant
            i <= xs@.len(),
            xs@.len() == ys@.len(),
            sx == entries_model(xs@),
            sy == entries_model(ys@),
            forall|k: int| 0 <= k < xs@.len() ==> decreases_to!(outer => #[trigger] xs@[k].1),
            forall|k: int|
                0 <= k < i ==> match assoc_index(sy, (#[trigger] sx[k]).0) {
                    Some(j) => value_eq(sx[k].1, sy[j].1),
                    None => false,
                },
        decreases xs.len() - i,
    {
        assert(sx[i as int] == (xs@[i as int].0@, xs@[i as int].1@));
        match env_find(ys, xs[i].0.as_str()) {
            Some(j) => {
                assert(sy[j as int] == (ys@[j as int].0@, ys@[j as int].1@));
                assert(decreases_to!(outer => xs@[i as int].1));
                if !values_equal(&xs[i].1, &ys[j].1) {
                    return false;
                }
            },
            None => {
                return false;
            },
        }
        i = i + 1;
    }
    true
}

/// Whether two values are equal (see [`value_eq`]).
pub fn values_equal(a: &Value, b: &Value) -> (r: bool)
    ensures
        r == value_eq(a@, b@),
    decreases a, 1nat,
{
    match (a, b) {
        (Value::Int(x), Value::Int(y)) => *x == *y,
        (Value::Float(x), Value::Float(y)) => floats_equal(*x, *y),
        (Value::Str(x), Value::Str(y)) => str_eq(x.as_str(), y.as_str()),
        (Value::Bool(x), Value::Bool(y)) => *x == *y,
        (Value::Null, Value::Null) => true,
        (Value::List(xs), Value::List(ys)) => {
            let ghost sx = values_model(xs@);
            let ghost sy = values_model(ys@);
            if xs.len() != ys.len() {
                return false;
            }
            assert forall|k: int| 0 <= k < xs@.len() implies decreases_to!(*a => #[trigger] xs@[k]) by {
                assert(decreases_to!(*a => xs@[k]));
            }
            let mut i: usize = 0;
            while i < xs.len()
                invariant
                    i <= xs@.len(),
                    xs@.len() == ys@.len(),
                    forall|k: int| 0 <= k < xs@.len() ==> decreases_to!(*a => #[trigger] xs@[k]),
                    sx == values_model(xs@),
                    sy == values_model(ys@),
                    *a == Value::List(*xs),
                    *b == Value::List(*ys),
                    forall|k: int| 0 <= k < i ==> value_eq(#[trigger] sx[k], sy[k]),
                decreases xs.len() - i,
            {
                assert(sx[i as int] == xs@[i as int]@);
                assert(sy[i as int] == ys@[i as int]@);
                assert(decreases_to!(*a => xs@[i as int]));
                if !values_equal(&xs[i], &ys[i]) {
                    return false;
                }
                i = i + 1;
            }
            true
        },
        (Value::Object(xs), Value::Object(ys)) => {
            assert forall|k: int| 0 <= k < xs@.len() implies decreases_to!(*a => #[trigger] xs@[k].1) by {
                assert(decreases_to!(*a => xs@[k]));
            }
            entries_same(xs, ys, Ghost(*a))
        },
        (Value::Bytes(x), Value::Bytes(y)) => bytes_same(x, y),
        (Value::Connection(x), Value::Connection(y)) => str_eq(x.as_str(), y.as_str()),
        (Value::Stream(x), Value::Stream(y)) => str_eq(x.as_str(), y.as_str()),
        (Value::Future(x), Value::Future(y)) => str_eq(x.as_str(), y.as_str()),
        (Value::Function { addr: p, params: q }, Value::Function { addr: u, params: v }) => *p == *u && strings_same(
            q,
            v,
        ),
        (
            Value::Closure { addr: p, params: q, captured: xs },
            Value::Closure { addr: u, params: v, captured: ys },
        ) => {
            if *p != *u || !strings_same(q, v) {
                return false;
            }
            assert forall|k: int| 0 <= k < xs@.len() implies decreases_to!(*a => #[trigger] xs@[k].1) by {
                assert(decreases_to!(*a => xs@[k]));
            }
            entries_same(xs, ys, Ghost(*a))
        },
        (
            Value::Exception { message: m, stack_trace: s },
            Value::Exception { message: n, stack_trace: t },
        ) => str_eq(m.as_str(), n.as_str()) && strings_same(s, t),
        _ => false,
    }
}

} // verus!
