use vstd::prelude::*;

verus! {

/// A runtime value of the virtual machine.
///
/// Floating-point numbers are carried as their IEEE-754 bit pattern; objects
/// and closure environments are association lists from names to values.
#[derive(Debug, PartialEq)]
pub enum Value {
    Int(i64),
    Float(u64),
    Str(String),
    Bool(bool),
    Null,
    List(Vec<Value>),
    Object(Vec<(String, Value)>),
    Bytes(Vec<u8>),
    Connection(String),
    Stream(String),
    Future(String),
    Function { addr: usize, params: Vec<String> },
    Closure { addr: usize, params: Vec<String>, captured: Vec<(String, Value)> },
    Exception { message: String, stack_trace: Vec<String> },
}

/// The mathematical model of a value: strings are character sequences and
/// vectors are sequences.
pub enum ValueModel {
    Int(i64),
    Float(u64),
    Str(Seq<char>),
    Bool(bool),
    Null,
    List(Seq<ValueModel>),
    Object(Seq<(Seq<char>, ValueModel)>),
    Bytes(Seq<u8>),
    Connection(Seq<char>),
    Stream(Seq<char>),
    Future(Seq<char>),
    Function { addr: usize, params: Seq<Seq<char>> },
    Closure { addr: usize, params: Seq<Seq<char>>, captured: Seq<(Seq<char>, ValueModel)> },
    Exception { message: Seq<char>, stack_trace: Seq<Seq<char>> },
}

/// The models of a sequence of strings.
pub open spec fn strings_model(s: Seq<String>) -> Seq<Seq<char>> {
    Seq::new(s.len(), |i: int| s[i]@)
}

/// The model of a value.
pub open spec fn value_model(v: Value) -> ValueModel
    decreases v, 0nat,
{
    match v {
        Value::Int(n) => ValueModel::Int(n),
        Value::Float(b) => ValueModel::Float(b),
        Value::Str(s) => ValueModel::Str(s@),
        Value::Bool(b) => ValueModel::Bool(b),
        Value::Null => ValueModel::Null,
        Value::List(items) => ValueModel::List(values_model(items@)),
        Value::Object(entries) => ValueModel::Object(entries_model(entries@)),
        Value::Bytes(b) => ValueModel::Bytes(b@),
        Value::Connection(s) => ValueModel::Connection(s@),
        Value::Stream(s) => ValueModel::Stream(s@),
        Value::Future(s) => ValueModel::Future(s@),
        Value::Function { addr, params } => ValueModel::Function { addr, params: strings_model(params@) },
        Value::Closure { addr, params, captured } => ValueModel::Closure {
            addr,
            params: strings_model(params@),
            captured: entries_model(captured@),
        },
        Value::Exception { message, stack_trace } => ValueModel::Exception {
            message: message@,
            stack_trace: strings_model(stack_trace@),
        },
    }
}

/// The models of a sequence of values.
pub open spec fn values_model(s: Seq<Value>) -> Seq<ValueModel>
    decreases s, 1nat,
{
    Seq::new(s.len(), |i: int| if 0 <= i < s.len() { value_model(s[i]) } else { ValueModel::Null })
}

/// The models of an association list.
pub open spec fn entries_model(s: Seq<(String, Value)>) -> Seq<(Seq<char>, ValueModel)>
    decreases s, 1nat,
{
    Seq::new(
        s.len(),
        |i: int|
            if 0 <= i < s.len() {
                (s[i].0@, value_model(s[i].1))
            } else {
                (Seq::empty(), ValueModel::Null)
            },
    )
}

impl View for Value {
    type V = ValueModel;

    open spec fn view(&self) -> ValueModel {
        value_model(*self)
    }
}

/// A copy of a vector of strings.
pub fn copy_strings(v: &Vec<String>) -> (r: Vec<String>)
    ensures
        r@ == v@,
        strings_model(r@) == strings_model(v@),
{
    let mut r: Vec<String> = Vec::new();
    let mut i: usize = 0;
    while i < v.len()
        invariant
            i <= v.len(),
            r@ == v@.subrange(0, i as int),
        decreases v.len() - i,
    {
        r.push(v[i].clone());
        i = i + 1;
    }
    assert(r@ == v@);
    r
}

/// A copy of a byte vector.
pub fn copy_bytes(v: &Vec<u8>) -> (r: Vec<u8>)
    ensures
        r@ == v@,
{
    let mut r: Vec<u8> = Vec::new();
    let mut i: usize = 0;
    while i < v.len()
        invariant
            i <= v.len(),
            r@ == v@.subrange(0, i as int),
        decreases v.len() - i,
    {
        r.push(v[i]);
        i = i + 1;
    }
    assert(r@ == v@);
    r
}

impl Value {
    /// A deep copy of the value, with the same model.
    pub fn copy(&self) -> (r: Value)
        ensures
            r@ == self@,
        decreases self,
    {
        match self {
            Value::Int(n) => Value::Int(*n),
            Value::Float(b) => Value::Float(*b),
            Value::Str(s) => Value::Str(s.clone()),
            Value::Bool(b) => Value::Bool(*b),
            Value::Null => Value::Null,
            Value::List(items) => Value::List(copy_values(items)),
            Value::Object(entries) => Value::Object(copy_entries(entries)),
            Value::Bytes(b) => Value::Bytes(copy_bytes(b)),
            Value::Connection(s) => Value::Connection(s.clone()),
            Value::Stream(s) => Value::Stream(s.clone()),
            Value::Future(s) => Value::Future(s.clone()),
            Value::Function { addr, params } => Value::Function { addr: *addr, params: copy_strings(params) },
            Value::Closure { addr, params, captured } => Value::Closure {
                addr: *addr,
                params: copy_strings(params),
                captured: copy_entries(captured),
            },
            Value::Exception { message, stack_trace } => Value::Exception {
                message: message.clone(),
                stack_trace: copy_strings(stack_trace),
            },
        }
    }
}

/// A deep copy of a vector of values.
pub fn copy_values(v: &Vec<Value>) -> (r: Vec<Value>)
    ensures
        values_model(r@) == values_model(v@),
    decreases v,
{
    let mut r: Vec<Value> = Vec::new();
    let mut i: usize = 0;
    while i < v.len()
        invariant
            i <= v.len(),
            r@.len() == i,
            forall|j: int| 0 <= j < i ==> value_model(#[trigger] r@[j]) == value_model(v@[j]),
        decreases v.len() - i,
    {
        assert(decreases_to!(v => v@[i as int]));
        r.push(v[i].copy());
        i = i + 1;
    }
    assert(values_model(r@) =~= values_model(v@));
    r
}

/// A deep copy of an association list.
pub fn copy_entries(v: &Vec<(String, Value)>) -> (r: Vec<(String, Value)>)
    ensures
        entries_model(r@) == entries_model(v@),
    decreases v,
{
    let mut r: Vec<(String, Value)> = Vec::new();
    let mut i: usize = 0;
    while i < v.len()
        invariant
            i <= v.len(),
            r@.len() == i,
            forall|j: int|
                0 <= j < i ==> (#[trigger] r@[j]).0@ == v@[j].0@ && value_model(r@[j].1) == value_model(
                    v@[j].1,
                ),
        decreases v.len() - i,
    {
        assert(decreases_to!(v => v@[i as int].1));
        let k = v[i].0.clone();
        let x = v[i].1.copy();
        r.push((k, x));
        i = i + 1;
    }
    assert(entries_model(r@) =~= entries_model(v@));
    r
}

} // verus!

verus! {

/// A floating-point arithmetic operation; the machine hands these to the
/// host, which computes on IEEE-754 values.
#[derive(Clone, Copy, PartialEq, Eq, Structural, Debug)]
pub enum FloatOp {
    Add,
    Sub,
    Mul,
    Div,
}

/// Whether a bit pattern encodes positive or negative zero.
pub open spec fn is_float_zero(bits: u64) -> bool {
    bits == 0 || bits == 0x8000_0000_0000_0000u64
}

/// Whether a bit pattern encodes positive or negative zero.
pub fn float_is_zero(bits: u64) -> (b: bool)
    ensures
        b == is_float_zero(bits),
{
    bits == 0 || bits == 0x8000_0000_0000_0000u64
}

} // verus!
