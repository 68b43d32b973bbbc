//! Text forms: how values are shown when printed, and how a program is
//! written back as assembly. Floating-point numbers are shown by the host,
//! through a function that must show equal bits alike.
use vstd::prelude::*;
use crate::text::{append_chars, chars_of, int_text, nat_text, string_of, u64_text, i64_text};
use crate::vm::opcode::{OpCode, OpCodeModel, opcode_model, program_model};
use crate::vm::value::{Value, ValueModel, entries_model, strings_model, values_model};

verus! {

/// The text `f` gives for the bit pattern `b` (one of them, if it gives
/// several).
pub open spec fn float_shown<F: Fn(u64) -> String>(f: F, b: u64) -> Seq<char> {
    (choose|s: String| call_ensures(f, (b,), s))@
}

/// `f` shows every bit pattern, and always alike.
pub open spec fn shows_floats<F: Fn(u64) -> String>(f: F) -> bool {
    &&& forall|b: u64| call_requires(f, (b,))
    &&& forall|b: u64, s: String, t: String| call_ensures(f, (b,), s) && call_ensures(f, (b,), t) ==> s@ == t@
}

/// The strings joined with `sep`: the first `n` of them.
pub open spec fn join_text(s: Seq<Seq<char>>, sep: Seq<char>, n: int) -> Seq<char>
    decreases n,
{
    if n <= 0 || n > s.len() {
        Seq::empty()
    } else if n == 1 {
        s[0]
    } else {
        join_text(s, sep, n - 1) + sep + s[n - 1]
    }
}

/// The lines of a stack trace, each on a new line indented by two spaces.
pub open spec fn trace_text(s: Seq<Seq<char>>, n: int) -> Seq<char>
    decreases n,
{
    if n <= 0 || n > s.len() {
        Seq::empty()
    } else {
        trace_text(s, n - 1) + "\n  "@ + s[n - 1]
    }
}

/// How a value is printed, with `ft` showing floats: numbers, strings and
/// booleans as themselves, `null`, lists in brackets, objects as
/// `{key: value, ...}` in the order of their entries, and handles,
/// functions, closures and exceptions by their descriptions.
pub open spec fn value_text(v: ValueModel, ft: spec_fn(u64) -> Seq<char>) -> Seq<char>
    decreases v, 0int,
{
    match v {
        ValueModel::Int(n) => int_text(n as int),
        ValueModel::Float(b) => ft(b),
        ValueModel::Str(s) => s,
        ValueModel::Bool(b) => if b {
            "true"@
        } else {
            "false"@
        },
        ValueModel::Null => "null"@,
        ValueModel::List(items) => "["@ + items_text(items, ft, items.len() as int) + "]"@,
        ValueModel::Object(entries) => "{"@ + entries_text(entries, ft, entries.len() as int) + "}"@,
        ValueModel::Bytes(b) => "Bytes("@ + nat_text(b.len()) + ")"@,
        ValueModel::Connection(id) => "Connection("@ + id + ")"@,
        ValueModel::Stream(id) => "Stream("@ + id + ")"@,
        ValueModel::Future(id) => "Future("@ + id + ")"@,
        ValueModel::Function { addr, params } => "function@"@ + nat_text(addr as nat) + " ("@ + join_text(
            params,
            ", "@,
            params.len() as int,
        ) + ")"@,
        ValueModel::Closure { addr, params, captured } => "closure@"@ + nat_text(addr as nat) + " ("@ + join_text(
            params,
            ", "@,
            params.len() as int,
        ) + ") [captured: "@ + nat_text(captured.len()) + "]"@,
        ValueModel::Exception { message, stack_trace } => "Exception: "@ + message + if stack_trace.len() == 0 {
            Seq::empty()
        } else {
            "\nStack trace:"@ + trace_text(stack_trace, stack_trace.len() as int)
        },
    }
}

/// The first `n` items of a list, shown and joined with `", "`.
pub open spec fn items_text(s: Seq<ValueModel>, ft: spec_fn(u64) -> Seq<char>, n: int) -> Seq<char>
    decreases s, n,
{
    if n <= 0 || n > s.len() {
        Seq::empty()
    } else if n == 1 {
        value_text(s[0], ft)
    } else {
        items_text(s, ft, n - 1) + ", "@ + value_text(s[n - 1], ft)
    }
}

/// The first `n` entries of an object, each as `key: value`, joined with
/// `", "`.
pub open spec fn entries_text(s: Seq<(Seq<char>, ValueModel)>, ft: spec_fn(u64) -> Seq<char>, n: int) -> Seq<char>
    decreases s, n,
{
    if n <= 0 || n > s.len() {
        Seq::empty()
    } else if n == 1 {
        s[0].0 + ": "@ + value_text(s[0].1, ft)
    } else {
        entries_text(s, ft, n - 1) + ", "@ + s[n - 1].0 + ": "@ + value_text(s[n - 1].1, ft)
    }
}

/// The float shower of `f` as a spec function.
pub open spec fn shower<F: Fn(u64) -> String>(f: F) -> spec_fn(u64) -> Seq<char> {
    |b: u64| float_shown(f, b)
}

fn push_str(out: &mut Vec<char>, s: &str)
    ensures
        final(out)@ == old(out)@ + s@,
{
    let t = chars_of(s);
    append_chars(out, t.as_slice());
}

fn write_float<F: Fn(u64) -> String>(out: &mut Vec<char>, b: u64, f: &F)
    requires
        shows_floats(*f),
    ensures
        final(out)@ == old(out)@ + float_shown(*f, b),
{
    let s = f(b);
    proof {
        let c = choose|t: String| call_ensures(*f, (b,), t);
        assert(call_ensures(*f, (b,), c));
    }
    push_str(out, s.as_str());
}

fn write_joined(out: &mut Vec<char>, items: &Vec<String>, sep: &str)
    ensures
        final(out)@ == old(out)@ + join_text(strings_model(items@), sep@, items@.len() as int),
{
    let ghost s = strings_model(items@);
    let ghost base = out@;
    let mut i: usize = 0;
    while i < items.len()
        invariant
            i <= items@.len(),
            s == strings_model(items@),
            out@ == base + join_text(s, sep@, i as int),
        decreases items.len() - i,
    {
        let ghost before = out@;
        if i > 0 {
            push_str(out, sep);
        }
        push_str(out, items[i].as_str());
        assert(s[i as int] == items@[i as int]@);
        if i == 0 {
            assert(out@ =~= base + join_text(s, sep@, 1));
        } else {
            assert(out@ =~= base + join_text(s, sep@, i as int) + sep@ + s[i as int]);
        }
        i = i + 1;
    }
}

fn write_trace(out: &mut Vec<char>, items: &Vec<String>)
    ensures
        final(out)@ == old(out)@ + trace_text(strings_model(items@), items@.len() as int),
{
    let ghost s = strings_model(items@);
    let ghost base = out@;
    let mut i: usize = 0;
    while i < items.len()
        invariant
            i <= items@.len(),
            s == strings_model(items@),
            out@ == base + trace_text(s, i as int),
        decreases items.len() - i,
    {
        push_str(out, "\n  ");
        push_str(out, items[i].as_str());
        assert(s[i as int] == items@[i as int]@);
        assert(out@ =~= base + trace_text(s, i as int) + "\n  "@ + s[i as int]);
        i = i + 1;
    }
}

/// Appends how `v` is printed (see [`value_text`]).
pub fn write_value<F: Fn(u64) -> String>(out: &mut Vec<char>, v: &Value, f: &F)
    requires
        shows_floats(*f),
    ensures
        final(out)@ == old(out)@ + value_text(v@, shower(*f)),
    decreases v,
{
    let ghost ft = shower(*f);
    match v {
        Value::Int(n) => {
            let t = i64_text(*n);
            append_chars(out, t.as_slice());
        },
        Value::Float(b) => {
            write_float(out, *b, f);
        },
        Value::Str(s) => {
            push_str(out, s.as_str());
        },
        Value::Bool(b) => {
            if *b {
                push_str(out, "true");
            } else {
                push_str(out, "false");
            }
        },
        Value::Null => {
            push_str(out, "null");
        },
        Value::List(items) => {
            let ghost sx = values_model(items@);
            let ghost base = out@;
            push_str(out, "[");
            assert forall|k: int| 0 <= k < items@.len() implies decreases_to!(*v => #[trigger] items@[k]) by {
                assert(decreases_to!(*v => items@[k]));
            }
            let mut i: usize = 0;
            while i < items.len()
                invariant
                    i <= items@.len(),
                    sx == values_model(items@),
                    shows_floats(*f),
                    ft == shower(*f),
                    forall|k: int| 0 <= k < items@.len() ==> decreases_to!(*v => #[trigger] items@[k]),
                    out@ == base + "["@ + items_text(sx, ft, i as int),
                decreases items.len() - i,
            {
                assert(sx[i as int] == items@[i as int]@);
                if i > 0 {
                    push_str(out, ", ");
                }
                assert(decreases_to!(*v => items@[i as int]));
                write_value(out, &items[i], f);
                if i == 0 {
                    assert(out@ =~= base + "["@ + items_text(sx, ft, 1));
                } else {
                    assert(out@ =~= base + "["@ + (items_text(sx, ft, i as int) + ", "@ + value_text(sx[i as int], ft)));
                }
                i = i + 1;
            }
            push_str(out, "]");
            assert(out@ =~= base + value_text(v@, ft));
        },
        Value::Object(entries) => {
            let ghost sx = entries_model(entries@);
            let ghost base = out@;
            push_str(out, "{");
            assert forall|k: int| 0 <= k < entries@.len() implies decreases_to!(*v => #[trigger] entries@[k].1) by {
                assert(decreases_to!(*v => entries@[k]));
            }
            let mut i: usize = 0;
            while i < entries.len()
                invariant
                    i <= entries@.len(),
                    sx == entries_model(entries@),
                    shows_floats(*f),
                    ft == shower(*f),
                    forall|k: int| 0 <= k < entries@.len() ==> decreases_to!(*v => #[trigger] entries@[k].1),
                    out@ == base + "{"@ + entries_text(sx, ft, i as int),
                decreases entries.len() - i,
            {
                assert(sx[i as int] == (entries@[i as int].0@, entries@[i as int].1@));
                if i > 0 {
                    push_str(out, ", ");
                }
                push_str(out, entries[i].0.as_str());
                push_str(out, ": ");
                assert(decreases_to!(*v => entries@[i as int].1));
                write_value(out, &entries[i].1, f);
                if i == 0 {
                    assert(out@ =~= base + "{"@ + entries_text(sx, ft, 1));
                } else {
                    assert(out@ =~= base + "{"@ + (entries_text(sx, ft, i as int) + ", "@ + sx[i as int].0 + ": "@
                        + value_text(sx[i as int].1, ft)));
                }
                i = i + 1;
            }
            push_str(out, "}");
            assert(out@ =~= base + value_text(v@, ft));
        },
        Value::Bytes(b) => {
            push_str(out, "Bytes(");
            let t = u64_text(b.len() as u64);
            append_chars(out, t.as_slice());
            push_str(out, ")");
        },
        Value::Connection(id) => {
            push_str(out, "Connection(");
            push_str(out, id.as_str());
            push_str(out, ")");
        },
        Value::Stream(id) => {
            push_str(out, "Stream(");
            push_str(out, id.as_str());
            push_str(out, ")");
        },
        Value::Future(id) => {
            push_str(out, "Future(");
            push_str(out, id.as_str());
            push_str(out, ")");
        },
        Value::Function { addr, params } => {
            push_str(out, "function@");
            let t = u64_text(*addr as u64);
            append_chars(out, t.as_slice());
            push_str(out, " (");
            write_joined(out, params, ", ");
            push_str(out, ")");
        },
        Value::Closure { addr, params, captured } => {
            push_str(out, "closure@");
            let t = u64_text(*addr as u64);
            append_chars(out, t.as_slice());
            push_str(out, " (");
            write_joined(out, params, ", ");
            push_str(out, ") [captured: ");
            let c = u64_text(captured.len() as u64);
            append_chars(out, c.as_slice());
            push_str(out, "]");
            assert(entries_model(captured@).len() == captured@.len());
        },
        Value::Exception { message, stack_trace } => {
            push_str(out, "Exception: ");
            push_str(out, message.as_str());
            if stack_trace.len() > 0 {
                push_str(out, "\nStack trace:");
                write_trace(out, stack_trace);
            }
        },
    }
}

/// How `v` is printed (see [`value_text`]), with `float_text` showing
/// floats.
pub fn display_value<F: Fn(u64) -> String>(v: &Value, float_text: &F) -> (r: String)
    requires
        shows_floats(*float_text),
    ensures
        r@ == value_text(v@, shower(*float_text)),
{
    let mut out: Vec<char> = Vec::new();
    write_value(&mut out, v, float_text);
    assert(out@ =~= value_text(v@, shower(*float_text)));
    string_of(out.as_slice())
}

/// A string with each double quote escaped by a backslash.
pub open spec fn escape_quotes(s: Seq<char>) -> Seq<char>
    decreases s.len(),
{
    if s.len() == 0 {
        Seq::empty()
    } else {
        escape_quotes(s.drop_last()) + if s.last() == '"' {
            seq!['\\', '"']
        } else {
            seq![s.last()]
        }
    }
}

/// The assembly line of an instruction, with `ft` showing floats.
pub open spec fn instruction_text(op: OpCodeModel, ft: spec_fn(u64) -> Seq<char>) -> Seq<char> {
    match op {
        OpCodeModel::PushInt(n) => "PUSH_INT "@ + int_text(n as int),
        OpCodeModel::PushFloat(b) => "PUSH_FLOAT "@ + ft(b),
        OpCodeModel::PushStr(s) => "PUSH_STR \""@ + escape_quotes(s) + "\""@,
        OpCodeModel::PushBool(b) => "PUSH_BOOL "@ + if b {
            "true"@
        } else {
            "false"@
        },
        OpCodeModel::Jmp(n) => "JMP "@ + nat_text(n as nat),
        OpCodeModel::Jz(n) => "JZ "@ + nat_text(n as nat),
        OpCodeModel::MakeList(n) => "MAKE_LIST "@ + nat_text(n as nat),
        OpCodeModel::Send(n) => "SEND "@ + nat_text(n as nat),
        OpCodeModel::Monitor(n) => "MONITOR "@ + nat_text(n as nat),
        OpCodeModel::Link(n) => "LINK "@ + nat_text(n as nat),
        OpCodeModel::Unlink(n) => "UNLINK "@ + nat_text(n as nat),
        OpCodeModel::Try { catch_addr } => "TRY "@ + catch_label(catch_addr as nat),
        OpCodeModel::Store(s) => "STORE "@ + s,
        OpCodeModel::Load(s) => "LOAD "@ + s,
        OpCodeModel::Delete(s) => "DELETE "@ + s,
        OpCodeModel::SetField(s) => "SET_FIELD "@ + s,
        OpCodeModel::GetField(s) => "GET_FIELD "@ + s,
        OpCodeModel::HasField(s) => "HAS_FIELD "@ + s,
        OpCodeModel::DeleteField(s) => "DELETE_FIELD "@ + s,
        OpCodeModel::Capture(s) => "CAPTURE "@ + s,
        OpCodeModel::Import(s) => "IMPORT "@ + s,
        OpCodeModel::Export(s) => "EXPORT "@ + s,
        OpCodeModel::Demonitor(s) => "DEMONITOR "@ + s,
        OpCodeModel::Register(s) => "REGISTER "@ + s,
        OpCodeModel::Unregister(s) => "UNREGISTER "@ + s,
        OpCodeModel::Whereis(s) => "WHEREIS "@ + s,
        OpCodeModel::SendNamed(s) => "SENDNAMED "@ + s,
        OpCodeModel::SuperviseChild(s) => "SUPERVISE_CHILD "@ + s,
        OpCodeModel::RestartChild(s) => "RESTART_CHILD "@ + s,
        OpCodeModel::Call { addr, params } => "CALL "@ + nat_text(addr as nat) + " "@ + join_text(params, " "@, params.len() as int),
        OpCodeModel::MakeFunction { addr, params } => "MAKE_FUNCTION "@ + nat_text(addr as nat) + " "@ + join_text(params, " "@, params.len() as int),
        OpCodeModel::MakeLambda { addr, params } => "MAKE_LAMBDA "@ + nat_text(addr as nat) + " "@ + join_text(params, " "@, params.len() as int),
        OpCodeModel::ReceiveMatch(_) => "RECEIVE_MATCH"@,
        OpCodeModel::Add => "ADD"@,
        OpCodeModel::AddF => "ADD_F"@,
        OpCodeModel::Sub => "SUB"@,
        OpCodeModel::SubF => "SUB_F"@,
        OpCodeModel::Mul => "MUL"@,
        OpCodeModel::MulF => "MUL_F"@,
        OpCodeModel::Div => "DIV"@,
        OpCodeModel::DivF => "DIV_F"@,
        OpCodeModel::Concat => "CONCAT"@,
        OpCodeModel::Print => "PRINT"@,
        OpCodeModel::Halt => "HALT"@,
        OpCodeModel::Ret => "RET"@,
        OpCodeModel::Dup => "DUP"@,
        OpCodeModel::Eq => "EQ"@,
        OpCodeModel::Ne => "NE"@,
        OpCodeModel::Gt => "GT"@,
        OpCodeModel::Lt => "LT"@,
        OpCodeModel::Ge => "GE"@,
        OpCodeModel::Le => "LE"@,
        OpCodeModel::EqF => "EQ_F"@,
        OpCodeModel::NeF => "NE_F"@,
        OpCodeModel::GtF => "GT_F"@,
        OpCodeModel::LtF => "LT_F"@,
        OpCodeModel::GeF => "GE_F"@,
        OpCodeModel::LeF => "LE_F"@,
        OpCodeModel::True => "TRUE"@,
        OpCodeModel::False => "FALSE"@,
        OpCodeModel::Not => "NOT"@,
        OpCodeModel::And => "AND"@,
        OpCodeModel::Or => "OR"@,
        OpCodeModel::Null => "NULL"@,
        OpCodeModel::Len => "LEN"@,
        OpCodeModel::Index => "INDEX"@,
        OpCodeModel::DumpScope => "DUMP_SCOPE"@,
        OpCodeModel::ReadFile => "READ_FILE"@,
        OpCodeModel::WriteFile => "WRITE_FILE"@,
        OpCodeModel::ReadLine => "READ_LINE"@,
        OpCodeModel::ReadChar => "READ_CHAR"@,
        OpCodeModel::ReadInput => "READ_INPUT"@,
        OpCodeModel::AppendFile => "APPEND_FILE"@,
        OpCodeModel::FileExists => "FILE_EXISTS"@,
        OpCodeModel::FileSize => "FILE_SIZE"@,
        OpCodeModel::DeleteFile => "DELETE_FILE"@,
        OpCodeModel::ListDir => "LIST_DIR"@,
        OpCodeModel::ReadBytes => "READ_BYTES"@,
        OpCodeModel::WriteBytes => "WRITE_BYTES"@,
        OpCodeModel::GetEnv => "GET_ENV"@,
        OpCodeModel::SetEnv => "SET_ENV"@,
        OpCodeModel::GetArgs => "GET_ARGS"@,
        OpCodeModel::Exec => "EXEC"@,
        OpCodeModel::ExecCapture => "EXEC_CAPTURE"@,
        OpCodeModel::Exit => "EXIT"@,
        OpCodeModel::GetTime => "GET_TIME"@,
        OpCodeModel::Sleep => "SLEEP"@,
        OpCodeModel::FormatTime => "FORMAT_TIME"@,
        OpCodeModel::HttpGet => "HTTP_GET"@,
        OpCodeModel::HttpPost => "HTTP_POST"@,
        OpCodeModel::TcpConnect => "TCP_CONNECT"@,
        OpCodeModel::TcpListen => "TCP_LISTEN"@,
        OpCodeModel::TcpSend => "TCP_SEND"@,
        OpCodeModel::TcpRecv => "TCP_RECV"@,
        OpCodeModel::UdpBind => "UDP_BIND"@,
        OpCodeModel::UdpSend => "UDP_SEND"@,
        OpCodeModel::UdpRecv => "UDP_RECV"@,
        OpCodeModel::DnsResolve => "DNS_RESOLVE"@,
        OpCodeModel::AsyncRead => "ASYNC_READ"@,
        OpCodeModel::AsyncWrite => "ASYNC_WRITE"@,
        OpCodeModel::Await => "AWAIT"@,
        OpCodeModel::StreamCreate => "STREAM_CREATE"@,
        OpCodeModel::StreamRead => "STREAM_READ"@,
        OpCodeModel::StreamWrite => "STREAM_WRITE"@,
        OpCodeModel::StreamClose => "STREAM_CLOSE"@,
        OpCodeModel::JsonParse => "JSON_PARSE"@,
        OpCodeModel::JsonStringify => "JSON_STRINGIFY"@,
        OpCodeModel::CsvParse => "CSV_PARSE"@,
        OpCodeModel::CsvWrite => "CSV_WRITE"@,
        OpCodeModel::Compress => "COMPRESS"@,
        OpCodeModel::Decompress => "DECOMPRESS"@,
        OpCodeModel::Encrypt => "ENCRYPT"@,
        OpCodeModel::Decrypt => "DECRYPT"@,
        OpCodeModel::Hash => "HASH"@,
        OpCodeModel::DbConnect => "DB_CONNECT"@,
        OpCodeModel::DbQuery => "DB_QUERY"@,
        OpCodeModel::DbExec => "DB_EXEC"@,
        OpCodeModel::MakeObject => "MAKE_OBJECT"@,
        OpCodeModel::Keys => "KEYS"@,
        OpCodeModel::CallFunction => "CALL_FUNCTION"@,
        OpCodeModel::Catch => "CATCH"@,
        OpCodeModel::Throw => "THROW"@,
        OpCodeModel::EndTry => "END_TRY"@,
        OpCodeModel::Spawn => "SPAWN"@,
        OpCodeModel::Receive => "RECEIVE"@,
        OpCodeModel::Yield => "YIELD"@,
        OpCodeModel::TrapExit => "TRAP_EXIT"@,
        OpCodeModel::StartSupervisor => "START_SUPERVISOR"@,
    }
}

/// The name of the label that marks address `a` in a listing.
pub open spec fn catch_label(a: nat) -> Seq<char> {
    "catch_"@ + nat_text(a)
}

/// Whether some `TRY` of `p` has its handler at address `a`.
pub open spec fn is_catch_target(p: Seq<OpCodeModel>, a: int) -> bool {
    &&& 0 <= a <= usize::MAX
    &&& exists|j: int| 0 <= j < p.len() && #[trigger] p[j] == (OpCodeModel::Try { catch_addr: a as usize })
}

/// The `LABEL` line that a listing of `p` puts before address `a`: one where
/// a `TRY` of `p` has its handler, none elsewhere.
pub open spec fn label_line(p: Seq<OpCodeModel>, a: int) -> Seq<char> {
    if is_catch_target(p, a) {
        "LABEL "@ + catch_label(a as nat) + seq!['\n']
    } else {
        Seq::empty()
    }
}

/// The first `n` instructions of `p` as assembly text: one line per
/// instruction, each ended by a newline and preceded by its label line.
pub open spec fn listing_prefix(p: Seq<OpCodeModel>, n: int, ft: spec_fn(u64) -> Seq<char>) -> Seq<char>
    decreases n,
{
    if n <= 0 {
        Seq::empty()
    } else {
        listing_prefix(p, n - 1, ft) + label_line(p, n - 1) + instruction_text(p[n - 1], ft) + seq!['\n']
    }
}

/// A program as assembly text that the assembler reads back: its lines, then
/// the label of the address just past its end where a `TRY` goes there.
pub open spec fn program_text(p: Seq<OpCodeModel>, ft: spec_fn(u64) -> Seq<char>) -> Seq<char> {
    listing_prefix(p, p.len() as int, ft) + label_line(p, p.len() as int)
}

/// Whether some `TRY` of the program has its handler at address `a`.
fn catch_target(program: &Vec<OpCode>, a: usize) -> (r: bool)
    ensures
        r == is_catch_target(program_model(program@), a as int),
{
    let ghost p = program_model(program@);
    let mut j: usize = 0;
    while j < program.len()
        invariant
            j <= program@.len(),
            p == program_model(program@),
            forall|k: int| 0 <= k < j ==> p[k] != (OpCodeModel::Try { catch_addr: a }),
        decreases program.len() - j,
    {
        assert(p[j as int] == opcode_model(program@[j as int]));
        match &program[j] {
            OpCode::Try { catch_addr } => {
                if *catch_addr == a {
                    assert(p[j as int] == (OpCodeModel::Try { catch_addr: a }));
                    return true;
                }
            },
            _ => {},
        }
        j = j + 1;
    }
    false
}

/// Appends the label line of address `a` (see [`label_line`]).
fn write_label_line(out: &mut Vec<char>, program: &Vec<OpCode>, a: usize)
    ensures
        final(out)@ == old(out)@ + label_line(program_model(program@), a as int),
{
    let ghost base = out@;
    if catch_target(program, a) {
        push_str(out, "LABEL ");
        push_str(out, "catch_");
        let t = u64_text(a as u64);
        append_chars(out, t.as_slice());
        out.push('\n');
        assert(out@ =~= base + label_line(program_model(program@), a as int));
    } else {
        assert(out@ =~= base + label_line(program_model(program@), a as int));
    }
}

fn write_escaped(out: &mut Vec<char>, s: &str)
    ensures
        final(out)@ == old(out)@ + escape_quotes(s@),
{
    let t = chars_of(s);
    let ghost base = out@;
    let mut i: usize = 0;
    while i < t.len()
        invariant
            i <= t@.len(),
            t@ == s@,
            out@ == base + escape_quotes(t@.take(i as int)),
        decreases t.len() - i,
    {
        assert(t@.take(i + 1).drop_last() =~= t@.take(i as int));
        if t[i] == '"' {
            out.push('\\');
            out.push('"');
        } else {
            out.push(t[i]);
        }
        assert(out@ =~= base + escape_quotes(t@.take(i + 1)));
        i = i + 1;
    }
    assert(t@.take(t@.len() as int) =~= t@);
}

/// Appends the assembly line of an instruction (see [`instruction_text`]).
#[verifier::rlimit(40)]
pub fn write_instruction<F: Fn(u64) -> String>(out: &mut Vec<char>, op: &OpCode, f: &F)
    requires
        shows_floats(*f),
    ensures
        final(out)@ == old(out)@ + instruction_text(opcode_model(*op), shower(*f)),
{
    let ghost base = out@;
    match op {
        OpCode::PushInt(n) => {
            push_str(out, "PUSH_INT ");
            let t = i64_text(*n);
            append_chars(out, t.as_slice());
            assert(out@ =~= base + instruction_text(opcode_model(*op), shower(*f)));
        },
        OpCode::PushFloat(b) => {
            push_str(out, "PUSH_FLOAT ");
            write_float(out, *b, f);
            assert(out@ =~= base + instruction_text(opcode_model(*op), shower(*f)));
        },
        OpCode::PushStr(s) => {
            push_str(out, "PUSH_STR \"");
            write_escaped(out, s.as_str());
            push_str(out, "\"");
            assert(out@ =~= base + instruction_text(opcode_model(*op), shower(*f)));
        },
        OpCode::PushBool(b) => {
            push_str(out, "PUSH_BOOL ");
            if *b {
                push_str(out, "true");
            } else {
                push_str(out, "false");
            }
            assert(out@ =~= base + instruction_text(opcode_model(*op), shower(*f)));
        },
        OpCode::Jmp(n) => {
            push_str(out, "JMP ");
            let t = u64_text(*n as u64);
            append_chars(out, t.as_slice());
            assert(out@ =~= base + instruction_text(opcode_model(*op), shower(*f)));
        },
        OpCode::Jz(n) => {
            push_str(out, "JZ ");
            let t = u64_text(*n as u64);
            append_chars(out, t.as_slice());
            assert(out@ =~= base + instruction_text(opcode_model(*op), shower(*f)));
        },
        OpCode::MakeList(n) => {
            push_str(out, "MAKE_LIST ");
            let t = u64_text(*n as u64);
            append_chars(out, t.as_slice());
            assert(out@ =~= base + instruction_text(opcode_model(*op), shower(*f)));
        },
        OpCode::Send(n) => {
            push_str(out, "SEND ");
            let t = u64_text(*n as u64);
            append_chars(out, t.as_slice());
            assert(out@ =~= base + instruction_text(opcode_model(*op), shower(*f)));
        },
        OpCode::Monitor(n) => {
            push_str(out, "MONITOR ");
            let t = u64_text(*n as u64);
            append_chars(out, t.as_slice());
            assert(out@ =~= base + instruction_text(opcode_model(*op), shower(*f)));
        },
        OpCode::Link(n) => {
            push_str(out, "LINK ");
            let t = u64_text(*n as u64);
            append_chars(out, t.as_slice());
            assert(out@ =~= base + instruction_text(opcode_model(*op), shower(*f)));
        },
        OpCode::Unlink(n) => {
            push_str(out, "UNLINK ");
            let t = u64_text(*n as u64);
            append_chars(out, t.as_slice());
            assert(out@ =~= base + instruction_text(opcode_model(*op), shower(*f)));
        },
        OpCode::Try { catch_addr } => {
            push_str(out, "TRY ");
            push_str(out, "catch_");
            let t = u64_text(*catch_addr as u64);
            append_chars(out, t.as_slice());
            assert(out@ =~= base + instruction_text(opcode_model(*op), shower(*f)));
        },
        OpCode::Store(s) => {
            push_str(out, "STORE ");
            push_str(out, s.as_str());
            assert(out@ =~= base + instruction_text(opcode_model(*op), shower(*f)));
        },
        OpCode::Load(s) => {
            push_str(out, "LOAD ");
            push_str(out, s.as_str());
            assert(out@ =~= base + instruction_text(opcode_model(*op), shower(*f)));
        },
        OpCode::Delete(s) => {
            push_str(out, "DELETE ");
            push_str(out, s.as_str());
            assert(out@ =~= base + instruction_text(opcode_model(*op), shower(*f)));
        },
        OpCode::SetField(s) => {
            push_str(out, "SET_FIELD ");
            push_str(out, s.as_str());
            assert(out@ =~= base + instruction_text(opcode_model(*op), shower(*f)));
        },
        OpCode::GetField(s) => {
            push_str(out, "GET_FIELD ");
            push_str(out, s.as_str());
            assert(out@ =~= base + instruction_text(opcode_model(*op), shower(*f)));
        },
        OpCode::HasField(s) => {
            push_str(out, "HAS_FIELD ");
            push_str(out, s.as_str());
            assert(out@ =~= base + instruction_text(opcode_model(*op), shower(*f)));
        },
        OpCode::DeleteField(s) => {
            push_str(out, "DELETE_FIELD ");
            push_str(out, s.as_str());
            assert(out@ =~= base + instruction_text(opcode_model(*op), shower(*f)));
        },
        OpCode::Capture(s) => {
            push_str(out, "CAPTURE ");
            push_str(out, s.as_str());
            assert(out@ =~= base + instruction_text(opcode_model(*op), shower(*f)));
        },
        OpCode::Import(s) => {
            push_str(out, "IMPORT ");
            push_str(out, s.as_str());
            assert(out@ =~= base + instruction_text(opcode_model(*op), shower(*f)));
        },
        OpCode::Export(s) => {
            push_str(out, "EXPORT ");
            push_str(out, s.as_str());
            assert(out@ =~= base + instruction_text(opcode_model(*op), shower(*f)));
        },
        OpCode::Demonitor(s) => {
            push_str(out, "DEMONITOR ");
            push_str(out, s.as_str());
            assert(out@ =~= base + instruction_text(opcode_model(*op), shower(*f)));
        },
        OpCode::Register(s) => {
            push_str(out, "REGISTER ");
            push_str(out, s.as_str());
            assert(out@ =~= base + instruction_text(opcode_model(*op), shower(*f)));
        },
        OpCode::Unregister(s) => {
            push_str(out, "UNREGISTER ");
            push_str(out, s.as_str());
            assert(out@ =~= base + instruction_text(opcode_model(*op), shower(*f)));
        },
        OpCode::Whereis(s) => {
            push_str(out, "WHEREIS ");
            push_str(out, s.as_str());
            assert(out@ =~= base + instruction_text(opcode_model(*op), shower(*f)));
        },
        OpCode::SendNamed(s) => {
            push_str(out, "SENDNAMED ");
            push_str(out, s.as_str());
            assert(out@ =~= base + instruction_text(opcode_model(*op), shower(*f)));
        },
        OpCode::SuperviseChild(s) => {
            push_str(out, "SUPERVISE_CHILD ");
            push_str(out, s.as_str());
            assert(out@ =~= base + instruction_text(opcode_model(*op), shower(*f)));
        },
        OpCode::RestartChild(s) => {
            push_str(out, "RESTART_CHILD ");
            push_str(out, s.as_str());
            assert(out@ =~= base + instruction_text(opcode_model(*op), shower(*f)));
        },
        OpCode::Call { addr, params } => {
            push_str(out, "CALL ");
            let t = u64_text(*addr as u64);
            append_chars(out, t.as_slice());
            push_str(out, " ");
            write_joined(out, params, " ");
            assert(out@ =~= base + instruction_text(opcode_model(*op), shower(*f)));
        },
        OpCode::MakeFunction { addr, params } => {
            push_str(out, "MAKE_FUNCTION ");
            let t = u64_text(*addr as u64);
            append_chars(out, t.as_slice());
            push_str(out, " ");
            write_joined(out, params, " ");
            assert(out@ =~= base + instruction_text(opcode_model(*op), shower(*f)));
        },
        OpCode::MakeLambda { addr, params } => {
            push_str(out, "MAKE_LAMBDA ");
            let t = u64_text(*addr as u64);
            append_chars(out, t.as_slice());
            push_str(out, " ");
            write_joined(out, params, " ");
            assert(out@ =~= base + instruction_text(opcode_model(*op), shower(*f)));
        },
        OpCode::ReceiveMatch(_) => push_str(out, "RECEIVE_MATCH"),
        OpCode::Add => push_str(out, "ADD"),
        OpCode::AddF => push_str(out, "ADD_F"),
        OpCode::Sub => push_str(out, "SUB"),
        OpCode::SubF => push_str(out, "SUB_F"),
        OpCode::Mul => push_str(out, "MUL"),
        OpCode::MulF => push_str(out, "MUL_F"),
        OpCode::Div => push_str(out, "DIV"),
        OpCode::DivF => push_str(out, "DIV_F"),
        OpCode::Concat => push_str(out, "CONCAT"),
        OpCode::Print => push_str(out, "PRINT"),
        OpCode::Halt => push_str(out, "HALT"),
        OpCode::Ret => push_str(out, "RET"),
        OpCode::Dup => push_str(out, "DUP"),
        OpCode::Eq => push_str(out, "EQ"),
        OpCode::Ne => push_str(out, "NE"),
        OpCode::Gt => push_str(out, "GT"),
        OpCode::Lt => push_str(out, "LT"),
        OpCode::Ge => push_str(out, "GE"),
        OpCode::Le => push_str(out, "LE"),
        OpCode::EqF => push_str(out, "EQ_F"),
        OpCode::NeF => push_str(out, "NE_F"),
        OpCode::GtF => push_str(out, "GT_F"),
        OpCode::LtF => push_str(out, "LT_F"),
        OpCode::GeF => push_str(out, "GE_F"),
        OpCode::LeF => push_str(out, "LE_F"),
        OpCode::True => push_str(out, "TRUE"),
        OpCode::False => push_str(out, "FALSE"),
        OpCode::Not => push_str(out, "NOT"),
        OpCode::And => push_str(out, "AND"),
        OpCode::Or => push_str(out, "OR"),
        OpCode::Null => push_str(out, "NULL"),
        OpCode::Len => push_str(out, "LEN"),
        OpCode::Index => push_str(out, "INDEX"),
        OpCode::DumpScope => push_str(out, "DUMP_SCOPE"),
        OpCode::ReadFile => push_str(out, "READ_FILE"),
        OpCode::WriteFile => push_str(out, "WRITE_FILE"),
        OpCode::ReadLine => push_str(out, "READ_LINE"),
        OpCode::ReadChar => push_str(out, "READ_CHAR"),
        OpCode::ReadInput => push_str(out, "READ_INPUT"),
        OpCode::AppendFile => push_str(out, "APPEND_FILE"),
        OpCode::FileExists => push_str(out, "FILE_EXISTS"),
        OpCode::FileSize => push_str(out, "FILE_SIZE"),
        OpCode::DeleteFile => push_str(out, "DELETE_FILE"),
        OpCode::ListDir => push_str(out, "LIST_DIR"),
        OpCode::ReadBytes => push_str(out, "READ_BYTES"),
        OpCode::WriteBytes => push_str(out, "WRITE_BYTES"),
        OpCode::GetEnv => push_str(out, "GET_ENV"),
        OpCode::SetEnv => push_str(out, "SET_ENV"),
        OpCode::GetArgs => push_str(out, "GET_ARGS"),
        OpCode::Exec => push_str(out, "EXEC"),
        OpCode::ExecCapture => push_str(out, "EXEC_CAPTURE"),
        OpCode::Exit => push_str(out, "EXIT"),
        OpCode::GetTime => push_str(out, "GET_TIME"),
        OpCode::Sleep => push_str(out, "SLEEP"),
        OpCode::FormatTime => push_str(out, "FORMAT_TIME"),
        OpCode::HttpGet => push_str(out, "HTTP_GET"),
        OpCode::HttpPost => push_str(out, "HTTP_POST"),
        OpCode::TcpConnect => push_str(out, "TCP_CONNECT"),
        OpCode::TcpListen => push_str(out, "TCP_LISTEN"),
        OpCode::TcpSend => push_str(out, "TCP_SEND"),
        OpCode::TcpRecv => push_str(out, "TCP_RECV"),
        OpCode::UdpBind => push_str(out, "UDP_BIND"),
        OpCode::UdpSend => push_str(out, "UDP_SEND"),
        OpCode::UdpRecv => push_str(out, "UDP_RECV"),
        OpCode::DnsResolve => push_str(out, "DNS_RESOLVE"),
        OpCode::AsyncRead => push_str(out, "ASYNC_READ"),
        OpCode::AsyncWrite => push_str(out, "ASYNC_WRITE"),
        OpCode::Await => push_str(out, "AWAIT"),
        OpCode::StreamCreate => push_str(out, "STREAM_CREATE"),
        OpCode::StreamRead => push_str(out, "STREAM_READ"),
        OpCode::StreamWrite => push_str(out, "STREAM_WRITE"),
        OpCode::StreamClose => push_str(out, "STREAM_CLOSE"),
        OpCode::JsonParse => push_str(out, "JSON_PARSE"),
        OpCode::JsonStringify => push_str(out, "JSON_STRINGIFY"),
        OpCode::CsvParse => push_str(out, "CSV_PARSE"),
        OpCode::CsvWrite => push_str(out, "CSV_WRITE"),
        OpCode::Compress => push_str(out, "COMPRESS"),
        OpCode::Decompress => push_str(out, "DECOMPRESS"),
        OpCode::Encrypt => push_str(out, "ENCRYPT"),
        OpCode::Decrypt => push_str(out, "DECRYPT"),
        OpCode::Hash => push_str(out, "HASH"),
        OpCode::DbConnect => push_str(out, "DB_CONNECT"),
        OpCode::DbQuery => push_str(out, "DB_QUERY"),
        OpCode::DbExec => push_str(out, "DB_EXEC"),
        OpCode::MakeObject => push_str(out, "MAKE_OBJECT"),
        OpCode::Keys => push_str(out, "KEYS"),
        OpCode::CallFunction => push_str(out, "CALL_FUNCTION"),
        OpCode::Catch => push_str(out, "CATCH"),
        OpCode::Throw => push_str(out, "THROW"),
        OpCode::EndTry => push_str(out, "END_TRY"),
        OpCode::Spawn => push_str(out, "SPAWN"),
        OpCode::Receive => push_str(out, "RECEIVE"),
        OpCode::Yield => push_str(out, "YIELD"),
        OpCode::TrapExit => push_str(out, "TRAP_EXIT"),
        OpCode::StartSupervisor => push_str(out, "START_SUPERVISOR"),
    }
}

/// The optimized program as the assembly text the optimizer writes out
/// (see [`program_text`]), with `float_text` showing floats.
pub fn program_listing<F: Fn(u64) -> String>(program: &Vec<OpCode>, float_text: &F) -> (r: String)
    requires
        shows_floats(*float_text),
    ensures
        r@ == program_text(program_model(program@), shower(*float_text)),
{
    let ghost p = program_model(program@);
    let ghost ft = shower(*float_text);
    let mut out: Vec<char> = Vec::new();
    let mut i: usize = 0;
    while i < program.len()
        invariant
            i <= program@.len(),
            p == program_model(program@),
            ft == shower(*float_text),
            shows_floats(*float_text),
            out@ == listing_prefix(p, i as int, ft),
        decreases program.len() - i,
    {
        assert(p[i as int] == opcode_model(program@[i as int]));
        write_label_line(&mut out, program, i);
        write_instruction(&mut out, &program[i], float_text);
        out.push('\n');
        assert(out@ =~= listing_prefix(p, i + 1, ft));
        i = i + 1;
    }
    write_label_line(&mut out, program, program.len());
    string_of(out.as_slice())
}

/// The text `g` gives for the value `v` (one of them, if it gives several).
pub open spec fn debug_shown<G: Fn(&Value) -> String>(g: G, v: Value) -> Seq<char> {
    (choose|s: String| call_ensures(g, (&v,), s))@
}

/// `g` shows every value, and always alike.
pub open spec fn shows_values<G: Fn(&Value) -> String>(g: G) -> bool {
    &&& forall|v: &Value| call_requires(g, (v,))
    &&& forall|v: &Value, s: String, t: String| call_ensures(g, (v,), s) && call_ensures(g, (v,), t) ==> s@ == t@
}

/// How the register machine prints a value: numbers, strings, booleans and
/// `null` as themselves, lists in brackets, any object as `object`, and
/// every other value by its debug form `dt`.
pub open spec fn register_text(v: Value, ft: spec_fn(u64) -> Seq<char>, dt: spec_fn(Value) -> Seq<char>) -> Seq<char>
    decreases v, 0int,
{
    match v {
        Value::Int(n) => int_text(n as int),
        Value::Float(b) => ft(b),
        Value::Str(s) => s@,
        Value::Bool(b) => if b {
            "true"@
        } else {
            "false"@
        },
        Value::Null => "null"@,
        Value::List(items) => "["@ + register_items_text(items@, ft, dt, items@.len() as int) + "]"@,
        Value::Object(_) => "object"@,
        _ => dt(v),
    }
}

/// The first `n` items of a list as the register machine prints them,
/// joined with `", "`.
pub open spec fn register_items_text(
    s: Seq<Value>,
    ft: spec_fn(u64) -> Seq<char>,
    dt: spec_fn(Value) -> Seq<char>,
    n: int,
) -> Seq<char>
    decreases s, n,
{
    if n <= 0 || n > s.len() {
        Seq::empty()
    } else if n == 1 {
        register_text(s[0], ft, dt)
    } else {
        register_items_text(s, ft, dt, n - 1) + ", "@ + register_text(s[n - 1], ft, dt)
    }
}

/// The debug shower of `g` as a spec function.
pub open spec fn debug_shower<G: Fn(&Value) -> String>(g: G) -> spec_fn(Value) -> Seq<char> {
    |v: Value| debug_shown(g, v)
}

fn write_register_value<F: Fn(u64) -> String, G: Fn(&Value) -> String>(out: &mut Vec<char>, v: &Value, f: &F, g: &G)
    requires
        shows_floats(*f),
        shows_values(*g),
    ensures
        final(out)@ == old(out)@ + register_text(*v, shower(*f), debug_shower(*g)),
    decreases v,
{
    let ghost ft = shower(*f);
    let ghost dt = debug_shower(*g);
    match v {
        Value::Int(n) => {
            let t = i64_text(*n);
            append_chars(out, t.as_slice());
        },
        Value::Float(b) => {
            write_float(out, *b, f);
        },
        Value::Str(s) => {
            push_str(out, s.as_str());
        },
        Value::Bool(b) => {
            if *b {
                push_str(out, "true");
            } else {
                push_str(out, "false");
            }
        },
        Value::Null => {
            push_str(out, "null");
        },
        Value::List(items) => {
            let ghost base = out@;
            push_str(out, "[");
            assert forall|k: int| 0 <= k < items@.len() implies decreases_to!(*v => #[trigger] items@[k]) by {
                assert(decreases_to!(*v => items@[k]));
            }
            let mut i: usize = 0;
            while i < items.len()
                invariant
                    i <= items@.len(),
                    shows_floats(*f),
                    shows_values(*g),
                    ft == shower(*f),
                    dt == debug_shower(*g),
                    forall|k: int| 0 <= k < items@.len() ==> decreases_to!(*v => #[trigger] items@[k]),
                    out@ == base + "["@ + register_items_text(items@, ft, dt, i as int),
                decreases items.len() - i,
            {
                if i > 0 {
                    push_str(out, ", ");
                }
                assert(decreases_to!(*v => items@[i as int]));
                write_register_value(out, &items[i], f, g);
                if i == 0 {
                    assert(out@ =~= base + "["@ + register_items_text(items@, ft, dt, 1));
                } else {
                    assert(out@ =~= base + "["@ + (register_items_text(items@, ft, dt, i as int) + ", "@ + register_text(
                        items@[i as int],
                        ft,
                        dt,
                    )));
                }
                i = i + 1;
            }
            push_str(out, "]");
            assert(out@ =~= base + register_text(*v, ft, dt));
        },
        Value::Object(_) => {
            push_str(out, "object");
        },
        _ => {
            let t = g(v);
            proof {
                let c = choose|u: String| call_ensures(*g, (v,), u);
                assert(call_ensures(*g, (v,), c));
            }
            push_str(out, t.as_str());
        },
    }
}

/// How the register machine prints `v` (see [`register_text`]), with
/// `float_text` showing floats and `debug_text` giving the debug form of
/// the other values.
pub fn format_register_value<F: Fn(u64) -> String, G: Fn(&Value) -> String>(
    v: &Value,
    float_text: &F,
    debug_text: &G,
) -> (r: String)
    requires
        shows_floats(*float_text),
        shows_values(*debug_text),
    ensures
        r@ == register_text(*v, shower(*float_text), debug_shower(*debug_text)),
{
    let mut out: Vec<char> = Vec::new();
    write_register_value(&mut out, v, float_text, debug_text);
    assert(out@ =~= register_text(*v, shower(*float_text), debug_shower(*debug_text)));
    string_of(out.as_slice())
}

} // verus!
