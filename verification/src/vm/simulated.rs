//! The instructions that stand in for network, stream, encoding and
//! database services: they answer from their operands alone, with fixed
//! replies, and touch nothing outside the machine.
use vstd::prelude::*;
use vstd::utf8::encode_utf8;
use crate::ir::vm::kind_name;
use crate::text::{append_chars, chars_of, i64_text, int_text, nat_text, string_of, u64_text};
use crate::vm::errors::{VMError, VMErrorModel};
use crate::vm::machine::{VM, kind_text, mismatch1, mismatch2, mismatch_one, mismatch_two};
use crate::vm::opcode::{OpCode, OpCodeModel, opcode_model};
use crate::vm::value::{Value, ValueModel, values_model};

verus! {

/// Whether an instruction is one of the stand-in services.
pub open spec fn is_simulated_op(op: OpCodeModel) -> bool {
    ||| op is HttpGet
    ||| op is HttpPost
    ||| op is TcpSend
    ||| op is TcpRecv
    ||| op is UdpSend
    ||| op is UdpRecv
    ||| op is AsyncRead
    ||| op is AsyncWrite
    ||| op is StreamCreate
    ||| op is StreamRead
    ||| op is StreamWrite
    ||| op is StreamClose
    ||| op is JsonParse
    ||| op is JsonStringify
    ||| op is Compress
    ||| op is Encrypt
    ||| op is DbConnect
    ||| op is DbQuery
    ||| op is DbExec
}

/// The result of a stand-in instruction: the new stack and a line to print,
/// or the stack at the failure and the error.
pub type SimOutcome = Result<(Seq<ValueModel>, Option<Seq<char>>), (Seq<ValueModel>, VMErrorModel)>;

/// The number of UTF-8 bytes of a string.
pub open spec fn byte_len(s: Seq<char>) -> nat {
    encode_utf8(s).len()
}

/// The bytes of an ASCII text.
pub open spec fn ascii_bytes(s: Seq<char>) -> Seq<u8> {
    Seq::new(s.len(), |i: int| s[i] as u8)
}

/// A type mismatch over four operands.
pub open spec fn mismatch4(
    expected: Seq<char>,
    operation: Seq<char>,
    a: ValueModel,
    b: ValueModel,
    c: ValueModel,
    d: ValueModel,
) -> VMErrorModel {
    VMErrorModel::TypeMismatch {
        expected,
        got: kind_text(a) + ", "@ + kind_text(b) + ", "@ + kind_text(c) + ", "@ + kind_text(d),
        operation,
    }
}

/// The reply of `UDP_RECV`.
pub open spec fn udp_reply() -> ValueModel {
    ValueModel::Object(
        seq![
            ("data"@, ValueModel::Str("UDP packet data"@)),
            ("sender_host"@, ValueModel::Str("192.168.1.100"@)),
            ("sender_port"@, ValueModel::Int(12345)),
        ],
    )
}

/// The reply of `DB_QUERY`.
pub open spec fn query_reply() -> ValueModel {
    ValueModel::Object(
        seq![
            ("rows"@, ValueModel::Int(3)),
            ("columns"@, ValueModel::List(seq![ValueModel::Str("id"@), ValueModel::Str("name"@)])),
            (
                "data"@,
                ValueModel::List(
                    seq![
                        ValueModel::List(seq![ValueModel::Int(1), ValueModel::Str("Alice"@)]),
                        ValueModel::List(seq![ValueModel::Int(2), ValueModel::Str("Bob"@)]),
                        ValueModel::List(seq![ValueModel::Int(3), ValueModel::Str("Charlie"@)]),
                    ],
                ),
            ),
        ],
    )
}

/// What `JSON_PARSE` gives for a text: a fixed object for `{...}`, a fixed
/// list for `[...]`, and the text itself otherwise.
pub open spec fn json_parse_reply(s: Seq<char>) -> ValueModel {
    if s.len() > 0 && s[0] == '{' && s.last() == '}' {
        ValueModel::Object(seq![("parsed"@, ValueModel::Bool(true)), ("data"@, ValueModel::Str("json_data"@))])
    } else if s.len() > 0 && s[0] == '[' && s.last() == ']' {
        ValueModel::List(seq![ValueModel::Str("item1"@), ValueModel::Str("item2"@)])
    } else {
        ValueModel::Str(s)
    }
}

/// What `JSON_STRINGIFY` gives for a value.
pub open spec fn json_text(v: ValueModel) -> Seq<char> {
    match v {
        ValueModel::Object(_) => "{\"key\":\"value\"}"@,
        ValueModel::List(_) => "[\"item1\",\"item2\"]"@,
        ValueModel::Str(s) => "\""@ + s + "\""@,
        ValueModel::Int(n) => int_text(n as int),
        ValueModel::Bool(b) => if b {
            "true"@
        } else {
            "false"@
        },
        ValueModel::Null => "null"@,
        _ => "{}"@,
    }
}

/// Pops the top value of a stack; an empty stack underflows.
pub open spec fn spop(st: Seq<ValueModel>, name: Seq<char>) -> Result<(Seq<ValueModel>, ValueModel), (Seq<ValueModel>, VMErrorModel)> {
    if st.len() == 0 {
        Err((st, VMErrorModel::StackUnderflow(name)))
    } else {
        Ok((st.drop_last(), st.last()))
    }
}

/// A one-operand stand-in: `f` gives the reply or the error for the value.
pub open spec fn sim1(st: Seq<ValueModel>, name: Seq<char>, f: spec_fn(ValueModel) -> Result<ValueModel, VMErrorModel>) -> SimOutcome {
    match spop(st, name) {
        Err(e) => Err(e),
        Ok((t, v)) => match f(v) {
            Ok(r) => Ok((t.push(r), None)),
            Err(e) => Err((t, e)),
        },
    }
}

/// A two-operand stand-in over `(a, b)`, `b` being the top value: `f`
/// gives the reply and the line to print, or the error.
pub open spec fn sim2(
    st: Seq<ValueModel>,
    name: Seq<char>,
    f: spec_fn(ValueModel, ValueModel) -> Result<(ValueModel, Option<Seq<char>>), VMErrorModel>,
) -> SimOutcome {
    match spop(st, name) {
        Err(e) => Err(e),
        Ok((t, b)) => match spop(t, name) {
            Err(e) => Err(e),
            Ok((u, a)) => match f(a, b) {
                Ok((r, line)) => Ok((u.push(r), line)),
                Err(e) => Err((u, e)),
            },
        },
    }
}

/// What a stand-in instruction does to the stack; `count` is the machine's
/// instruction count, which names new streams.
pub open spec fn sim_step(st: Seq<ValueModel>, op: OpCodeModel, count: usize) -> SimOutcome {
    match op {
        OpCodeModel::HttpGet => sim1(
            st,
            "HTTP_GET"@,
            |v: ValueModel| match v {
                ValueModel::Str(u) => Ok(ValueModel::Str("HTTP response from "@ + u)),
                _ => Err(mismatch1("string (URL)"@, "HTTP_GET"@, v)),
            },
        ),
        OpCodeModel::HttpPost => sim2(
            st,
            "HTTP_POST"@,
            |a: ValueModel, b: ValueModel| match (a, b) {
                (ValueModel::Str(u), ValueModel::Str(d)) => Ok(
                    (ValueModel::Str("HTTP POST to "@ + u + " with data: "@ + d), None),
                ),
                _ => Err(mismatch2("two strings (URL, data)"@, "HTTP_POST"@, a, b)),
            },
        ),
        OpCodeModel::TcpSend => sim2(
            st,
            "TCP_SEND"@,
            |a: ValueModel, b: ValueModel| match (a, b) {
                (ValueModel::Connection(c), ValueModel::Str(d)) => Ok(
                    (ValueModel::Int(byte_len(d) as i64), Some("TCP Send to "@ + c + ": "@ + d)),
                ),
                (ValueModel::Connection(c), ValueModel::Bytes(d)) => Ok(
                    (ValueModel::Int(d.len() as i64), Some("TCP Send to "@ + c + ": "@ + nat_text(d.len()) + " bytes"@)),
                ),
                _ => Err(mismatch2("connection and string/bytes"@, "TCP_SEND"@, a, b)),
            },
        ),
        OpCodeModel::TcpRecv => sim2(
            st,
            "TCP_RECV"@,
            |a: ValueModel, b: ValueModel| match (a, b) {
                (ValueModel::Connection(c), ValueModel::Int(n)) => Ok(
                    (
                        if n > 0 {
                            ValueModel::Str("Data from "@ + c)
                        } else {
                            ValueModel::Bytes(seq![1u8, 2u8, 3u8, 4u8])
                        },
                        None,
                    ),
                ),
                _ => Err(mismatch2("connection and int (buffer size)"@, "TCP_RECV"@, a, b)),
            },
        ),
        OpCodeModel::UdpSend => match spop(st, "UDP_SEND"@) {
            Err(e) => Err(e),
            Ok((t1, d)) => match spop(t1, "UDP_SEND"@) {
                Err(e) => Err(e),
                Ok((t2, p)) => match spop(t2, "UDP_SEND"@) {
                    Err(e) => Err(e),
                    Ok((t3, h)) => match spop(t3, "UDP_SEND"@) {
                        Err(e) => Err(e),
                        Ok((t4, s)) => match (s, h, p, d) {
                            (
                                ValueModel::Connection(c),
                                ValueModel::Str(hs),
                                ValueModel::Int(pn),
                                ValueModel::Str(ds),
                            ) => Ok(
                                (
                                    t4.push(ValueModel::Int(byte_len(ds) as i64)),
                                    Some(
                                        "UDP Send from "@ + c + " to "@ + hs + ":"@ + int_text(pn as int) + ": "@
                                            + ds,
                                    ),
                                ),
                            ),
                            _ => Err(
                                (
                                    t4,
                                    mismatch4(
                                        "connection, string (host), int (port), string (data)"@,
                                        "UDP_SEND"@,
                                        s,
                                        h,
                                        p,
                                        d,
                                    ),
                                ),
                            ),
                        },
                    },
                },
            },
        },
        OpCodeModel::UdpRecv => sim2(
            st,
            "UDP_RECV"@,
            |a: ValueModel, b: ValueModel| match (a, b) {
                (ValueModel::Connection(_), ValueModel::Int(_)) => Ok((udp_reply(), None)),
                _ => Err(mismatch2("connection and int (buffer size)"@, "UDP_RECV"@, a, b)),
            },
        ),
        OpCodeModel::AsyncRead => sim1(
            st,
            "ASYNC_READ"@,
            |v: ValueModel| match v {
                ValueModel::Str(f) => Ok(ValueModel::Future("async_read:"@ + f)),
                _ => Err(mismatch1("string (filename)"@, "ASYNC_READ"@, v)),
            },
        ),
        OpCodeModel::AsyncWrite => match spop(st, "ASYNC_WRITE"@) {
            Err(e) => Err(e),
            Ok((t1, f)) => match spop(t1, "ASYNC_WRITE"@) {
                Err(e) => Err(e),
                Ok((t2, c)) => match (f, c) {
                    (ValueModel::Str(fs), ValueModel::Str(cs)) => Ok(
                        (t2.push(ValueModel::Future("async_write:"@ + fs + ":"@ + cs)), None),
                    ),
                    _ => Err((t2, mismatch2("string (filename) and string (content)"@, "ASYNC_WRITE"@, f, c))),
                },
            },
        },
        OpCodeModel::StreamCreate => sim1(
            st,
            "STREAM_CREATE"@,
            |v: ValueModel| match v {
                ValueModel::Str(k) => Ok(ValueModel::Stream("stream:"@ + k + ":"@ + nat_text(count as nat))),
                _ => Err(mismatch1("string (stream type)"@, "STREAM_CREATE"@, v)),
            },
        ),
        OpCodeModel::StreamRead => sim2(
            st,
            "STREAM_READ"@,
            |a: ValueModel, b: ValueModel| match (a, b) {
                (ValueModel::Stream(_), ValueModel::Int(n)) => Ok(
                    (ValueModel::Str("stream_data_"@ + int_text(n as int)), None),
                ),
                _ => Err(mismatch2("stream and int (size)"@, "STREAM_READ"@, a, b)),
            },
        ),
        OpCodeModel::StreamWrite => sim2(
            st,
            "STREAM_WRITE"@,
            |a: ValueModel, b: ValueModel| match (a, b) {
                (ValueModel::Stream(_), ValueModel::Str(d)) => Ok((ValueModel::Int(byte_len(d) as i64), None)),
                (ValueModel::Stream(_), ValueModel::Bytes(d)) => Ok((ValueModel::Int(d.len() as i64), None)),
                _ => Err(mismatch2("stream and string/bytes"@, "STREAM_WRITE"@, a, b)),
            },
        ),
        OpCodeModel::StreamClose => sim1(
            st,
            "STREAM_CLOSE"@,
            |v: ValueModel| match v {
                ValueModel::Stream(_) => Ok(ValueModel::Bool(true)),
                _ => Err(mismatch1("stream"@, "STREAM_CLOSE"@, v)),
            },
        ),
        OpCodeModel::JsonParse => sim1(
            st,
            "JSON_PARSE"@,
            |v: ValueModel| match v {
                ValueModel::Str(s) => Ok(json_parse_reply(s)),
                _ => Err(mismatch1("string (JSON)"@, "JSON_PARSE"@, v)),
            },
        ),
        OpCodeModel::JsonStringify => sim1(st, "JSON_STRINGIFY"@, |v: ValueModel| Ok(ValueModel::Str(json_text(v)))),
        OpCodeModel::Compress => sim1(
            st,
            "COMPRESS"@,
            |v: ValueModel| match v {
                ValueModel::Str(d) => Ok(ValueModel::Bytes(ascii_bytes("compressed("@ + nat_text(byte_len(d)) + ")"@))),
                ValueModel::Bytes(d) => Ok(ValueModel::Bytes(ascii_bytes("compressed("@ + nat_text(d.len()) + ")"@))),
                _ => Err(mismatch1("string or bytes"@, "COMPRESS"@, v)),
            },
        ),
        OpCodeModel::Encrypt => sim2(
            st,
            "ENCRYPT"@,
            |a: ValueModel, b: ValueModel| match (a, b) {
                (ValueModel::Str(p), ValueModel::Str(k)) => Ok(
                    (
                        ValueModel::Bytes(
                            ascii_bytes(
                                "encrypted:"@ + nat_text(byte_len(p)) + ":key:"@ + nat_text(byte_len(k)),
                            ),
                        ),
                        None,
                    ),
                ),
                _ => Err(mismatch2("string (data) and string (key)"@, "ENCRYPT"@, a, b)),
            },
        ),
        OpCodeModel::DbConnect => sim1(
            st,
            "DB_CONNECT"@,
            |v: ValueModel| match v {
                ValueModel::Str(c) => Ok(ValueModel::Connection("db:"@ + c)),
                _ => Err(mismatch1("string (connection string)"@, "DB_CONNECT"@, v)),
            },
        ),
        OpCodeModel::DbQuery => sim2(
            st,
            "DB_QUERY"@,
            |a: ValueModel, b: ValueModel| match (a, b) {
                (ValueModel::Connection(_), ValueModel::Str(_)) => Ok((query_reply(), None)),
                _ => Err(mismatch2("connection and string (SQL query)"@, "DB_QUERY"@, a, b)),
            },
        ),
        OpCodeModel::DbExec => sim2(
            st,
            "DB_EXEC"@,
            |a: ValueModel, b: ValueModel| match (a, b) {
                (ValueModel::Connection(_), ValueModel::Str(_)) => Ok((ValueModel::Int(1), None)),
                _ => Err(mismatch2("connection and string (SQL command)"@, "DB_EXEC"@, a, b)),
            },
        ),
        _ => Ok((st, None)),
    }
}

pub(crate) fn spop_exec(stack: &mut Vec<Value>, name: &str) -> (r: Result<Value, VMError>)
    ensures
        match spop(values_model(old(stack)@), name@) {
            Ok((t, v)) => r is Ok && r->Ok_0@ == v && values_model(final(stack)@) == t,
            Err((t, e)) => r is Err && r->Err_0@ == e && values_model(final(stack)@) == t,
        },
{
    match stack.pop() {
        Some(v) => {
            assert(values_model(stack@) =~= values_model(old(stack)@).drop_last());
            Ok(v)
        },
        None => Err(VMError::StackUnderflow(name.to_owned())),
    }
}

pub(crate) fn spush(stack: &mut Vec<Value>, v: Value)
    ensures
        values_model(final(stack)@) == values_model(old(stack)@).push(v@),
{
    let ghost m = v@;
    stack.push(v);
    assert(values_model(stack@) =~= values_model(old(stack)@).push(m));
}

fn byte_count(s: &str) -> (n: usize)
    ensures
        n == byte_len(s@),
{
    s.as_bytes().len()
}

fn ascii_of(t: &Vec<char>) -> (r: Vec<u8>)
    ensures
        r@ == ascii_bytes(t@),
{
    let mut r: Vec<u8> = Vec::new();
    let mut i: usize = 0;
    while i < t.len()
        invariant
            i <= t@.len(),
            r@ == Seq::new(i as nat, |k: int| t@[k] as u8),
        decreases t.len() - i,
    {
        r.push(t[i] as u8);
        assert(r@ =~= Seq::new((i + 1) as nat, |k: int| t@[k] as u8));
        i = i + 1;
    }
    r
}

pub(crate) fn cat(parts: &mut Vec<char>, s: &str)
    ensures
        final(parts)@ == old(parts)@ + s@,
{
    let t = chars_of(s);
    append_chars(parts, t.as_slice());
}

fn cat_nat(parts: &mut Vec<char>, n: usize)
    ensures
        final(parts)@ == old(parts)@ + nat_text(n as nat),
{
    let t = u64_text(n as u64);
    append_chars(parts, t.as_slice());
}

fn cat_int(parts: &mut Vec<char>, n: i64)
    ensures
        final(parts)@ == old(parts)@ + int_text(n as int),
{
    let t = i64_text(n);
    append_chars(parts, t.as_slice());
}

fn mismatch_four(expected: &str, operation: &str, a: &Value, b: &Value, c: &Value, d: &Value) -> (e: VMError)
    ensures
        e@ == mismatch4(expected@, operation@, a@, b@, c@, d@),
{
    let mut t: Vec<char> = Vec::new();
    cat(&mut t, kind_name(a));
    cat(&mut t, ", ");
    cat(&mut t, kind_name(b));
    cat(&mut t, ", ");
    cat(&mut t, kind_name(c));
    cat(&mut t, ", ");
    cat(&mut t, kind_name(d));
    VMError::TypeMismatch { expected: expected.to_owned(), got: string_of(t.as_slice()), operation: operation.to_owned() }
}

pub(crate) fn str_value(t: &Vec<char>) -> (v: Value)
    ensures
        v@ == ValueModel::Str(t@),
{
    Value::Str(string_of(t.as_slice()))
}

fn udp_reply_value() -> (v: Value)
    ensures
        v@ == udp_reply(),
{
    let mut e: Vec<(String, Value)> = Vec::new();
    e.push(("data".to_owned(), Value::Str("UDP packet data".to_owned())));
    e.push(("sender_host".to_owned(), Value::Str("192.168.1.100".to_owned())));
    e.push(("sender_port".to_owned(), Value::Int(12345)));
    let v = Value::Object(e);
    assert(v@ =~= udp_reply()) by {
        assert(crate::vm::value::entries_model(e@) =~= seq![
            ("data"@, ValueModel::Str("UDP packet data"@)),
            ("sender_host"@, ValueModel::Str("192.168.1.100"@)),
            ("sender_port"@, ValueModel::Int(12345)),
        ]);
    }
    v
}

fn pair_list(a: Value, b: Value) -> (v: Value)
    ensures
        v@ == ValueModel::List(seq![a@, b@]),
{
    let ghost (x, y) = (a@, b@);
    let mut l: Vec<Value> = Vec::new();
    l.push(a);
    l.push(b);
    assert(values_model(l@) =~= seq![x, y]);
    Value::List(l)
}

fn query_reply_value() -> (v: Value)
    ensures
        v@ == query_reply(),
{
    let columns = pair_list(Value::Str("id".to_owned()), Value::Str("name".to_owned()));
    let r1 = pair_list(Value::Int(1), Value::Str("Alice".to_owned()));
    let r2 = pair_list(Value::Int(2), Value::Str("Bob".to_owned()));
    let r3 = pair_list(Value::Int(3), Value::Str("Charlie".to_owned()));
    let ghost (m1, m2, m3) = (r1@, r2@, r3@);
    let mut rows: Vec<Value> = Vec::new();
    rows.push(r1);
    rows.push(r2);
    rows.push(r3);
    assert(values_model(rows@) =~= seq![m1, m2, m3]);
    let ghost cm = columns@;
    let data = Value::List(rows);
    let ghost dm = data@;
    let mut e: Vec<(String, Value)> = Vec::new();
    e.push(("rows".to_owned(), Value::Int(3)));
    e.push(("columns".to_owned(), columns));
    e.push(("data".to_owned(), data));
    assert(crate::vm::value::entries_model(e@) =~= seq![
        ("rows"@, ValueModel::Int(3)),
        ("columns"@, cm),
        ("data"@, dm),
    ]);
    Value::Object(e)
}

fn json_parse_value(s: String) -> (v: Value)
    ensures
        v@ == json_parse_reply(s@),
{
    let t = chars_of(s.as_str());
    let n = t.len();
    if n > 0 && t[0] == '{' && t[n - 1] == '}' {
        let mut e: Vec<(String, Value)> = Vec::new();
        e.push(("parsed".to_owned(), Value::Bool(true)));
        e.push(("data".to_owned(), Value::Str("json_data".to_owned())));
        assert(crate::vm::value::entries_model(e@) =~= seq![
            ("parsed"@, ValueModel::Bool(true)),
            ("data"@, ValueModel::Str("json_data"@)),
        ]);
        Value::Object(e)
    } else if n > 0 && t[0] == '[' && t[n - 1] == ']' {
        pair_list(Value::Str("item1".to_owned()), Value::Str("item2".to_owned()))
    } else {
        Value::Str(s)
    }
}

fn json_value_text(v: &Value) -> (r: Value)
    ensures
        r@ == ValueModel::Str(json_text(v@)),
{
    match v {
        Value::Object(_) => Value::Str("{\"key\":\"value\"}".to_owned()),
        Value::List(_) => Value::Str("[\"item1\",\"item2\"]".to_owned()),
        Value::Str(s) => {
            let mut t: Vec<char> = Vec::new();
            cat(&mut t, "\"");
            cat(&mut t, s.as_str());
            cat(&mut t, "\"");
            str_value(&t)
        },
        Value::Int(n) => {
            let mut t: Vec<char> = Vec::new();
            cat_int(&mut t, *n);
            assert(t@ =~= int_text(*n as int));
            str_value(&t)
        },
        Value::Bool(b) => if *b {
            Value::Str("true".to_owned())
        } else {
            Value::Str("false".to_owned())
        },
        Value::Null => Value::Str("null".to_owned()),
        _ => Value::Str("{}".to_owned()),
    }
}

/// `r` is what the outcome `o` says, `st` the stack afterwards.
pub open spec fn sim_ok(r: Result<Option<String>, VMError>, st: Seq<ValueModel>, o: SimOutcome) -> bool {
    match o {
        Ok((t, line)) => r is Ok && st == t && match line {
            Some(l) => r->Ok_0 is Some && r->Ok_0->Some_0@ == l,
            None => r->Ok_0 is None,
        },
        Err((t, e)) => r is Err && r->Err_0@ == e && st == t,
    }
}

#[verifier::rlimit(60)]
fn sim_net(stack: &mut Vec<Value>, op: &OpCode) -> (r: Result<Option<String>, VMError>)
    requires
        op is HttpGet || op is HttpPost || op is TcpSend || op is TcpRecv || op is UdpSend || op is UdpRecv,
    ensures
        sim_ok(r, values_model(final(stack)@), sim_step(values_model(old(stack)@), opcode_model(*op), 0)),
{
    match op {
        OpCode::HttpGet => {
            let v = match spop_exec(stack, "HTTP_GET") {
                Ok(v) => v,
                Err(e) => {
                    return Err(e);
                },
            };
            match &v {
                Value::Str(u) => {
                    let mut t: Vec<char> = Vec::new();
                    cat(&mut t, "HTTP response from ");
                    cat(&mut t, u.as_str());
                    spush(stack, str_value(&t));
                    Ok(None)
                },
                _ => Err(mismatch_one("string (URL)", "HTTP_GET", &v)),
            }
        },
        OpCode::HttpPost => {
            let b = match spop_exec(stack, "HTTP_POST") {
                Ok(v) => v,
                Err(e) => {
                    return Err(e);
                },
            };
            let a = match spop_exec(stack, "HTTP_POST") {
                Ok(v) => v,
                Err(e) => {
                    return Err(e);
                },
            };
            match (&a, &b) {
                (Value::Str(u), Value::Str(d)) => {
                    let mut t: Vec<char> = Vec::new();
                    cat(&mut t, "HTTP POST to ");
                    cat(&mut t, u.as_str());
                    cat(&mut t, " with data: ");
                    cat(&mut t, d.as_str());
                    spush(stack, str_value(&t));
                    Ok(None)
                },
                _ => Err(mismatch_two("two strings (URL, data)", "HTTP_POST", &a, &b)),
            }
        },
        OpCode::TcpSend => {
            let b = match spop_exec(stack, "TCP_SEND") {
                Ok(v) => v,
                Err(e) => {
                    return Err(e);
                },
            };
            let a = match spop_exec(stack, "TCP_SEND") {
                Ok(v) => v,
                Err(e) => {
                    return Err(e);
                },
            };
            match (&a, &b) {
                (Value::Connection(c), Value::Str(d)) => {
                    let n = byte_count(d.as_str());
                    let mut t: Vec<char> = Vec::new();
                    cat(&mut t, "TCP Send to ");
                    cat(&mut t, c.as_str());
                    cat(&mut t, ": ");
                    cat(&mut t, d.as_str());
                    spush(stack, Value::Int(n as i64));
                    Ok(Some(string_of(t.as_slice())))
                },
                (Value::Connection(c), Value::Bytes(d)) => {
                    let mut t: Vec<char> = Vec::new();
                    cat(&mut t, "TCP Send to ");
                    cat(&mut t, c.as_str());
                    cat(&mut t, ": ");
                    cat_nat(&mut t, d.len());
                    cat(&mut t, " bytes");
                    spush(stack, Value::Int(d.len() as i64));
                    Ok(Some(string_of(t.as_slice())))
                },
                _ => Err(mismatch_two("connection and string/bytes", "TCP_SEND", &a, &b)),
            }
        },
        OpCode::TcpRecv => {
            let b = match spop_exec(stack, "TCP_RECV") {
                Ok(v) => v,
                Err(e) => {
                    return Err(e);
                },
            };
            let a = match spop_exec(stack, "TCP_RECV") {
                Ok(v) => v,
                Err(e) => {
                    return Err(e);
                },
            };
            match (&a, &b) {
                (Value::Connection(c), Value::Int(n)) => {
                    if *n > 0 {
                        let mut t: Vec<char> = Vec::new();
                        cat(&mut t, "Data from ");
                        cat(&mut t, c.as_str());
                        spush(stack, str_value(&t));
                    } else {
                        let bytes: Vec<u8> = vec![1u8, 2u8, 3u8, 4u8];
                        assert(bytes@ =~= seq![1u8, 2u8, 3u8, 4u8]);
                        spush(stack, Value::Bytes(bytes));
                    }
                    Ok(None)
                },
                _ => Err(mismatch_two("connection and int (buffer size)", "TCP_RECV", &a, &b)),
            }
        },
        OpCode::UdpSend => {
            let d = match spop_exec(stack, "UDP_SEND") {
                Ok(v) => v,
                Err(e) => {
                    return Err(e);
                },
            };
            let p = match spop_exec(stack, "UDP_SEND") {
                Ok(v) => v,
                Err(e) => {
                    return Err(e);
                },
            };
            let h = match spop_exec(stack, "UDP_SEND") {
                Ok(v) => v,
                Err(e) => {
                    return Err(e);
                },
            };
            let so = match spop_exec(stack, "UDP_SEND") {
                Ok(v) => v,
                Err(e) => {
                    return Err(e);
                },
            };
            match (&so, &h, &p, &d) {
                (Value::Connection(c), Value::Str(hs), Value::Int(pn), Value::Str(ds)) => {
                    let n = byte_count(ds.as_str());
                    let mut t: Vec<char> = Vec::new();
                    cat(&mut t, "UDP Send from ");
                    cat(&mut t, c.as_str());
                    cat(&mut t, " to ");
                    cat(&mut t, hs.as_str());
                    cat(&mut t, ":");
                    cat_int(&mut t, *pn);
                    cat(&mut t, ": ");
                    cat(&mut t, ds.as_str());
                    spush(stack, Value::Int(n as i64));
                    Ok(Some(string_of(t.as_slice())))
                },
                _ => Err(
                    mismatch_four(
                        "connection, string (host), int (port), string (data)",
                        "UDP_SEND",
                        &so,
                        &h,
                        &p,
                        &d,
                    ),
                ),
            }
        },
        _ => {
            let b = match spop_exec(stack, "UDP_RECV") {
                Ok(v) => v,
                Err(e) => {
                    return Err(e);
                },
            };
            let a = match spop_exec(stack, "UDP_RECV") {
                Ok(v) => v,
                Err(e) => {
                    return Err(e);
                },
            };
            match (&a, &b) {
                (Value::Connection(_), Value::Int(_)) => {
                    spush(stack, udp_reply_value());
                    Ok(None)
                },
                _ => Err(mismatch_two("connection and int (buffer size)", "UDP_RECV", &a, &b)),
            }
        },
    }
}

#[verifier::rlimit(60)]
fn sim_io(stack: &mut Vec<Value>, op: &OpCode, count: usize) -> (r: Result<Option<String>, VMError>)
    requires
        op is AsyncRead || op is AsyncWrite || op is StreamCreate || op is StreamRead || op is StreamWrite
            || op is StreamClose,
    ensures
        sim_ok(r, values_model(final(stack)@), sim_step(values_model(old(stack)@), opcode_model(*op), count)),
{
    match op {
        OpCode::AsyncRead => {
            let v = match spop_exec(stack, "ASYNC_READ") {
                Ok(v) => v,
                Err(e) => {
                    return Err(e);
                },
            };
            match &v {
                Value::Str(f) => {
                    let mut t: Vec<char> = Vec::new();
                    cat(&mut t, "async_read:");
                    cat(&mut t, f.as_str());
                    spush(stack, Value::Future(string_of(t.as_slice())));
                    Ok(None)
                },
                _ => Err(mismatch_one("string (filename)", "ASYNC_READ", &v)),
            }
        },
        OpCode::AsyncWrite => {
            let f = match spop_exec(stack, "ASYNC_WRITE") {
                Ok(v) => v,
                Err(e) => {
                    return Err(e);
                },
            };
            let c = match spop_exec(stack, "ASYNC_WRITE") {
                Ok(v) => v,
                Err(e) => {
                    return Err(e);
                },
            };
            match (&f, &c) {
                (Value::Str(fs), Value::Str(cs)) => {
                    let mut t: Vec<char> = Vec::new();
                    cat(&mut t, "async_write:");
                    cat(&mut t, fs.as_str());
                    cat(&mut t, ":");
                    cat(&mut t, cs.as_str());
                    spush(stack, Value::Future(string_of(t.as_slice())));
                    Ok(None)
                },
                _ => Err(mismatch_two("string (filename) and string (content)", "ASYNC_WRITE", &f, &c)),
            }
        },
        OpCode::StreamCreate => {
            let v = match spop_exec(stack, "STREAM_CREATE") {
                Ok(v) => v,
                Err(e) => {
                    return Err(e);
                },
            };
            match &v {
                Value::Str(k) => {
                    let mut t: Vec<char> = Vec::new();
                    cat(&mut t, "stream:");
                    cat(&mut t, k.as_str());
                    cat(&mut t, ":");
                    cat_nat(&mut t, count);
                    spush(stack, Value::Stream(string_of(t.as_slice())));
                    Ok(None)
                },
                _ => Err(mismatch_one("string (stream type)", "STREAM_CREATE", &v)),
            }
        },
        OpCode::StreamRead => {
            let b = match spop_exec(stack, "STREAM_READ") {
                Ok(v) => v,
                Err(e) => {
                    return Err(e);
                },
            };
            let a = match spop_exec(stack, "STREAM_READ") {
                Ok(v) => v,
                Err(e) => {
                    return Err(e);
                },
            };
            match (&a, &b) {
                (Value::Stream(_), Value::Int(n)) => {
                    let mut t: Vec<char> = Vec::new();
                    cat(&mut t, "stream_data_");
                    cat_int(&mut t, *n);
                    spush(stack, str_value(&t));
                    Ok(None)
                },
                _ => Err(mismatch_two("stream and int (size)", "STREAM_READ", &a, &b)),
            }
        },
        OpCode::StreamWrite => {
            let b = match spop_exec(stack, "STREAM_WRITE") {
                Ok(v) => v,
                Err(e) => {
                    return Err(e);
                },
            };
            let a = match spop_exec(stack, "STREAM_WRITE") {
                Ok(v) => v,
                Err(e) => {
                    return Err(e);
                },
            };
            match (&a, &b) {
                (Value::Stream(_), Value::Str(d)) => {
                    let n = byte_count(d.as_str());
                    spush(stack, Value::Int(n as i64));
                    Ok(None)
                },
                (Value::Stream(_), Value::Bytes(d)) => {
                    spush(stack, Value::Int(d.len() as i64));
                    Ok(None)
                },
                _ => Err(mismatch_two("stream and string/bytes", "STREAM_WRITE", &a, &b)),
            }
        },
        _ => {
            let v = match spop_exec(stack, "STREAM_CLOSE") {
                Ok(v) => v,
                Err(e) => {
                    return Err(e);
                },
            };
            match &v {
                Value::Stream(_) => {
                    spush(stack, Value::Bool(true));
                    Ok(None)
                },
                _ => Err(mismatch_one("stream", "STREAM_CLOSE", &v)),
            }
        },
    }
}

#[verifier::rlimit(60)]
fn sim_data(stack: &mut Vec<Value>, op: &OpCode) -> (r: Result<Option<String>, VMError>)
    requires
        op is JsonParse || op is JsonStringify || op is Compress || op is Encrypt || op is DbConnect || op is DbQuery
            || op is DbExec,
    ensures
        sim_ok(r, values_model(final(stack)@), sim_step(values_model(old(stack)@), opcode_model(*op), 0)),
{
    match op {
        OpCode::JsonParse => {
            let v = match spop_exec(stack, "JSON_PARSE") {
                Ok(v) => v,
                Err(e) => {
                    return Err(e);
                },
            };
            match v {
                Value::Str(s) => {
                    spush(stack, json_parse_value(s));
                    Ok(None)
                },
                other => Err(mismatch_one("string (JSON)", "JSON_PARSE", &other)),
            }
        },
        OpCode::JsonStringify => {
            let v = match spop_exec(stack, "JSON_STRINGIFY") {
                Ok(v) => v,
                Err(e) => {
                    return Err(e);
                },
            };
            spush(stack, json_value_text(&v));
            Ok(None)
        },
        OpCode::Compress => {
            let v = match spop_exec(stack, "COMPRESS") {
                Ok(v) => v,
                Err(e) => {
                    return Err(e);
                },
            };
            let n: usize = match &v {
                Value::Str(d) => byte_count(d.as_str()),
                Value::Bytes(d) => d.len(),
                _ => {
                    return Err(mismatch_one("string or bytes", "COMPRESS", &v));
                },
            };
            let mut t: Vec<char> = Vec::new();
            cat(&mut t, "compressed(");
            cat_nat(&mut t, n);
            cat(&mut t, ")");
            spush(stack, Value::Bytes(ascii_of(&t)));
            Ok(None)
        },
        OpCode::Encrypt => {
            let b = match spop_exec(stack, "ENCRYPT") {
                Ok(v) => v,
                Err(e) => {
                    return Err(e);
                },
            };
            let a = match spop_exec(stack, "ENCRYPT") {
                Ok(v) => v,
                Err(e) => {
                    return Err(e);
                },
            };
            match (&a, &b) {
                (Value::Str(pt), Value::Str(k)) => {
                    let mut t: Vec<char> = Vec::new();
                    cat(&mut t, "encrypted:");
                    cat_nat(&mut t, byte_count(pt.as_str()));
                    cat(&mut t, ":key:");
                    cat_nat(&mut t, byte_count(k.as_str()));
                    spush(stack, Value::Bytes(ascii_of(&t)));
                    Ok(None)
                },
                _ => Err(mismatch_two("string (data) and string (key)", "ENCRYPT", &a, &b)),
            }
        },
        OpCode::DbConnect => {
            let v = match spop_exec(stack, "DB_CONNECT") {
                Ok(v) => v,
                Err(e) => {
                    return Err(e);
                },
            };
            match &v {
                Value::Str(c) => {
                    let mut t: Vec<char> = Vec::new();
                    cat(&mut t, "db:");
                    cat(&mut t, c.as_str());
                    spush(stack, Value::Connection(string_of(t.as_slice())));
                    Ok(None)
                },
                _ => Err(mismatch_one("string (connection string)", "DB_CONNECT", &v)),
            }
        },
        OpCode::DbQuery => {
            let b = match spop_exec(stack, "DB_QUERY") {
                Ok(v) => v,
                Err(e) => {
                    return Err(e);
                },
            };
            let a = match spop_exec(stack, "DB_QUERY") {
                Ok(v) => v,
                Err(e) => {
                    return Err(e);
                },
            };
            match (&a, &b) {
                (Value::Connection(_), Value::Str(_)) => {
                    spush(stack, query_reply_value());
                    Ok(None)
                },
                _ => Err(mismatch_two("connection and string (SQL query)", "DB_QUERY", &a, &b)),
            }
        },
        _ => {
            let b = match spop_exec(stack, "DB_EXEC") {
                Ok(v) => v,
                Err(e) => {
                    return Err(e);
                },
            };
            let a = match spop_exec(stack, "DB_EXEC") {
                Ok(v) => v,
                Err(e) => {
                    return Err(e);
                },
            };
            match (&a, &b) {
                (Value::Connection(_), Value::Str(_)) => {
                    spush(stack, Value::Int(1));
                    Ok(None)
                },
                _ => Err(mismatch_two("connection and string (SQL command)", "DB_EXEC", &a, &b)),
            }
        },
    }
}

impl VM {
    /// Executes the stand-in instruction at the instruction pointer on the
    /// stack (see [`sim_step`]); gives the line it prints, if any. The host
    /// completes the instruction with [`VM::finish_host`].
    pub fn execute_simulated(&mut self) -> (r: Result<Option<String>, VMError>)
        requires
            old(self).ip < old(self).instructions@.len(),
            is_simulated_op(opcode_model(old(self).instructions@[old(self).ip as int])),
        ensures
            sim_ok(
                r,
                values_model(final(self).stack@),
                sim_step(
                    values_model(old(self).stack@),
                    opcode_model(old(self).instructions@[old(self).ip as int]),
                    old(self).instruction_count,
                ),
            ),
            *final(self) == (VM { stack: final(self).stack, ..*old(self) }),
    {
        let op = self.instructions[self.ip].copy();
        let count = self.instruction_count;
        let mut stack: Vec<Value> = Vec::new();
        std::mem::swap(&mut stack, &mut self.stack);
        let r = match &op {
            OpCode::HttpGet | OpCode::HttpPost | OpCode::TcpSend | OpCode::TcpRecv | OpCode::UdpSend
            | OpCode::UdpRecv => sim_net(&mut stack, &op),
            OpCode::AsyncRead | OpCode::AsyncWrite | OpCode::StreamCreate | OpCode::StreamRead | OpCode::StreamWrite
            | OpCode::StreamClose => sim_io(&mut stack, &op, count),
            _ => sim_data(&mut stack, &op),
        };
        self.stack = stack;
        r
    }

    /// Whether the instruction at the instruction pointer is a stand-in one.
    pub fn at_simulated(&self) -> (b: bool)
        ensures
            b == (self.ip < self.instructions@.len() && is_simulated_op(opcode_model(self.instructions@[self.ip as int]))),
    {
        if self.ip >= self.instructions.len() {
            return false;
        }
        match &self.instructions[self.ip] {
            OpCode::HttpGet | OpCode::HttpPost | OpCode::TcpSend | OpCode::TcpRecv | OpCode::UdpSend | OpCode::UdpRecv
            | OpCode::AsyncRead | OpCode::AsyncWrite | OpCode::StreamCreate | OpCode::StreamRead | OpCode::StreamWrite
            | OpCode::StreamClose | OpCode::JsonParse | OpCode::JsonStringify | OpCode::Compress | OpCode::Encrypt
            | OpCode::DbConnect | OpCode::DbQuery | OpCode::DbExec => true,
            _ => false,
        }
    }
}

} // verus!
