//! The textual assembly format of the machine (`.ttvm`): a two-pass
//! assembler with labels.
use vstd::prelude::*;
use crate::text::{
    before_char, char_seqs, chars_eq, chars_of, chars_start_with, find_char, lines, parse_i64,
    parse_i64_chars, parse_u64, parse_u64_chars, parse_usize, parse_usize_chars, split_lines,
    split_words, starts_with, string_of, string_seqs, sub_chars, trim, trim_chars, words, append_chars, trim_char, trim_char_exec,
};
use crate::vm::errors::VMError;
use crate::vm::opcode::{OpCode, OpCodeModel, opcode_model, program_model};
use crate::vm::value::strings_model;

verus! {

pub(crate) fn is_lit(a: &[char], lit: &str) -> (b: bool)
    ensures
        b == (a@ == lit@),
{
    let l = chars_of(lit);
    chars_eq(a, l.as_slice())
}

/// Operand-free mnemonics, part 1.
pub open spec fn unit_mnemonic_0(m: Seq<char>) -> Option<OpCodeModel> {
    if m == "ADD"@ {
        Some(OpCodeModel::Add)
    } else if m == "ADD_F"@ {
        Some(OpCodeModel::AddF)
    } else if m == "SUB"@ {
        Some(OpCodeModel::Sub)
    } else if m == "SUB_F"@ {
        Some(OpCodeModel::SubF)
    } else if m == "MUL"@ {
        Some(OpCodeModel::Mul)
    } else if m == "MUL_F"@ {
        Some(OpCodeModel::MulF)
    } else if m == "DIV"@ {
        Some(OpCodeModel::Div)
    } else if m == "DIV_F"@ {
        Some(OpCodeModel::DivF)
    } else if m == "DUP"@ {
        Some(OpCodeModel::Dup)
    } else if m == "CONCAT"@ {
        Some(OpCodeModel::Concat)
    } else if m == "PRINT"@ {
        Some(OpCodeModel::Print)
    } else if m == "HALT"@ {
        Some(OpCodeModel::Halt)
    } else if m == "RET"@ {
        Some(OpCodeModel::Ret)
    } else if m == "EQ"@ {
        Some(OpCodeModel::Eq)
    } else if m == "GT"@ {
        Some(OpCodeModel::Gt)
    } else if m == "LT"@ {
        Some(OpCodeModel::Lt)
    } else if m == "NE"@ {
        Some(OpCodeModel::Ne)
    } else if m == "GE"@ {
        Some(OpCodeModel::Ge)
    } else if m == "LE"@ {
        Some(OpCodeModel::Le)
    } else if m == "EQ_F"@ {
        Some(OpCodeModel::EqF)
    } else if m == "GT_F"@ {
        Some(OpCodeModel::GtF)
    } else if m == "LT_F"@ {
        Some(OpCodeModel::LtF)
    } else if m == "NE_F"@ {
        Some(OpCodeModel::NeF)
    } else if m == "GE_F"@ {
        Some(OpCodeModel::GeF)
    } else {
        None
    }
}

/// Operand-free mnemonics, part 2.
pub open spec fn unit_mnemonic_1(m: Seq<char>) -> Option<OpCodeModel> {
    if m == "LE_F"@ {
        Some(OpCodeModel::LeF)
    } else if m == "TRUE"@ {
        Some(OpCodeModel::True)
    } else if m == "FALSE"@ {
        Some(OpCodeModel::False)
    } else if m == "NOT"@ {
        Some(OpCodeModel::Not)
    } else if m == "AND"@ {
        Some(OpCodeModel::And)
    } else if m == "OR"@ {
        Some(OpCodeModel::Or)
    } else if m == "NULL"@ {
        Some(OpCodeModel::Null)
    } else if m == "LEN"@ {
        Some(OpCodeModel::Len)
    } else if m == "INDEX"@ {
        Some(OpCodeModel::Index)
    } else if m == "DUMP_SCOPE"@ {
        Some(OpCodeModel::DumpScope)
    } else if m == "MAKE_OBJECT"@ {
        Some(OpCodeModel::MakeObject)
    } else if m == "KEYS"@ {
        Some(OpCodeModel::Keys)
    } else if m == "CALL_FUNCTION"@ {
        Some(OpCodeModel::CallFunction)
    } else if m == "CATCH"@ {
        Some(OpCodeModel::Catch)
    } else if m == "THROW"@ {
        Some(OpCodeModel::Throw)
    } else if m == "END_TRY"@ {
        Some(OpCodeModel::EndTry)
    } else if m == "READ_FILE"@ {
        Some(OpCodeModel::ReadFile)
    } else if m == "WRITE_FILE"@ {
        Some(OpCodeModel::WriteFile)
    } else if m == "READ_LINE"@ {
        Some(OpCodeModel::ReadLine)
    } else if m == "READ_CHAR"@ {
        Some(OpCodeModel::ReadChar)
    } else if m == "READ_INPUT"@ {
        Some(OpCodeModel::ReadInput)
    } else if m == "APPEND_FILE"@ {
        Some(OpCodeModel::AppendFile)
    } else if m == "FILE_EXISTS"@ {
        Some(OpCodeModel::FileExists)
    } else if m == "FILE_SIZE"@ {
        Some(OpCodeModel::FileSize)
    } else {
        None
    }
}

/// Operand-free mnemonics, part 3.
pub open spec fn unit_mnemonic_2(m: Seq<char>) -> Option<OpCodeModel> {
    if m == "DELETE_FILE"@ {
        Some(OpCodeModel::DeleteFile)
    } else if m == "LIST_DIR"@ {
        Some(OpCodeModel::ListDir)
    } else if m == "READ_BYTES"@ {
        Some(OpCodeModel::ReadBytes)
    } else if m == "WRITE_BYTES"@ {
        Some(OpCodeModel::WriteBytes)
    } else if m == "GET_ENV"@ {
        Some(OpCodeModel::GetEnv)
    } else if m == "SET_ENV"@ {
        Some(OpCodeModel::SetEnv)
    } else if m == "GET_ARGS"@ {
        Some(OpCodeModel::GetArgs)
    } else if m == "EXEC"@ {
        Some(OpCodeModel::Exec)
    } else if m == "EXEC_CAPTURE"@ {
        Some(OpCodeModel::ExecCapture)
    } else if m == "EXIT"@ {
        Some(OpCodeModel::Exit)
    } else if m == "GET_TIME"@ {
        Some(OpCodeModel::GetTime)
    } else if m == "SLEEP"@ {
        Some(OpCodeModel::Sleep)
    } else if m == "FORMAT_TIME"@ {
        Some(OpCodeModel::FormatTime)
    } else if m == "HTTP_GET"@ {
        Some(OpCodeModel::HttpGet)
    } else if m == "HTTP_POST"@ {
        Some(OpCodeModel::HttpPost)
    } else if m == "TCP_CONNECT"@ {
        Some(OpCodeModel::TcpConnect)
    } else if m == "TCP_LISTEN"@ {
        Some(OpCodeModel::TcpListen)
    } else if m == "TCP_SEND"@ {
        Some(OpCodeModel::TcpSend)
    } else if m == "TCP_RECV"@ {
        Some(OpCodeModel::TcpRecv)
    } else if m == "UDP_BIND"@ {
        Some(OpCodeModel::UdpBind)
    } else if m == "UDP_SEND"@ {
        Some(OpCodeModel::UdpSend)
    } else if m == "UDP_RECV"@ {
        Some(OpCodeModel::UdpRecv)
    } else if m == "DNS_RESOLVE"@ {
        Some(OpCodeModel::DnsResolve)
    } else if m == "ASYNC_READ"@ {
        Some(OpCodeModel::AsyncRead)
    } else {
        None
    }
}

/// Operand-free mnemonics, part 4.
pub open spec fn unit_mnemonic_3(m: Seq<char>) -> Option<OpCodeModel> {
    if m == "ASYNC_WRITE"@ {
        Some(OpCodeModel::AsyncWrite)
    } else if m == "AWAIT"@ {
        Some(OpCodeModel::Await)
    } else if m == "STREAM_CREATE"@ {
        Some(OpCodeModel::StreamCreate)
    } else if m == "STREAM_READ"@ {
        Some(OpCodeModel::StreamRead)
    } else if m == "STREAM_WRITE"@ {
        Some(OpCodeModel::StreamWrite)
    } else if m == "STREAM_CLOSE"@ {
        Some(OpCodeModel::StreamClose)
    } else if m == "JSON_PARSE"@ {
        Some(OpCodeModel::JsonParse)
    } else if m == "JSON_STRINGIFY"@ {
        Some(OpCodeModel::JsonStringify)
    } else if m == "CSV_PARSE"@ {
        Some(OpCodeModel::CsvParse)
    } else if m == "CSV_WRITE"@ {
        Some(OpCodeModel::CsvWrite)
    } else if m == "COMPRESS"@ {
        Some(OpCodeModel::Compress)
    } else if m == "DECOMPRESS"@ {
        Some(OpCodeModel::Decompress)
    } else if m == "ENCRYPT"@ {
        Some(OpCodeModel::Encrypt)
    } else if m == "DECRYPT"@ {
        Some(OpCodeModel::Decrypt)
    } else if m == "HASH"@ {
        Some(OpCodeModel::Hash)
    } else if m == "DB_CONNECT"@ {
        Some(OpCodeModel::DbConnect)
    } else if m == "DB_QUERY"@ {
        Some(OpCodeModel::DbQuery)
    } else if m == "DB_EXEC"@ {
        Some(OpCodeModel::DbExec)
    } else if m == "YIELD"@ {
        Some(OpCodeModel::Yield)
    } else if m == "RECEIVE"@ {
        Some(OpCodeModel::Receive)
    } else if m == "SPAWN"@ {
        Some(OpCodeModel::Spawn)
    } else if m == "TRAP_EXIT"@ {
        Some(OpCodeModel::TrapExit)
    } else if m == "START_SUPERVISOR"@ {
        Some(OpCodeModel::StartSupervisor)
    } else {
        None
    }
}

/// The instruction of a mnemonic that takes no operand.
pub open spec fn unit_mnemonic(m: Seq<char>) -> Option<OpCodeModel> {
    match unit_mnemonic_0(m) { Some(o) => Some(o), None => match unit_mnemonic_1(m) { Some(o) => Some(o), None => match unit_mnemonic_2(m) { Some(o) => Some(o), None => match unit_mnemonic_3(m) { Some(o) => Some(o), None => None } } } }
}

fn unit_op_0(m: &[char]) -> (r: Option<OpCode>)
    ensures
        match unit_mnemonic_0(m@) {
            Some(o) => r is Some && opcode_model(r->Some_0) == o,
            None => r is None,
        },
{
    if is_lit(m, "ADD") {
        Some(OpCode::Add)
    } else if is_lit(m, "ADD_F") {
        Some(OpCode::AddF)
    } else if is_lit(m, "SUB") {
        Some(OpCode::Sub)
    } else if is_lit(m, "SUB_F") {
        Some(OpCode::SubF)
    } else if is_lit(m, "MUL") {
        Some(OpCode::Mul)
    } else if is_lit(m, "MUL_F") {
        Some(OpCode::MulF)
    } else if is_lit(m, "DIV") {
        Some(OpCode::Div)
    } else if is_lit(m, "DIV_F") {
        Some(OpCode::DivF)
    } else if is_lit(m, "DUP") {
        Some(OpCode::Dup)
    } else if is_lit(m, "CONCAT") {
        Some(OpCode::Concat)
    } else if is_lit(m, "PRINT") {
        Some(OpCode::Print)
    } else if is_lit(m, "HALT") {
        Some(OpCode::Halt)
    } else if is_lit(m, "RET") {
        Some(OpCode::Ret)
    } else if is_lit(m, "EQ") {
        Some(OpCode::Eq)
    } else if is_lit(m, "GT") {
        Some(OpCode::Gt)
    } else if is_lit(m, "LT") {
        Some(OpCode::Lt)
    } else if is_lit(m, "NE") {
        Some(OpCode::Ne)
    } else if is_lit(m, "GE") {
        Some(OpCode::Ge)
    } else if is_lit(m, "LE") {
        Some(OpCode::Le)
    } else if is_lit(m, "EQ_F") {
        Some(OpCode::EqF)
    } else if is_lit(m, "GT_F") {
        Some(OpCode::GtF)
    } else if is_lit(m, "LT_F") {
        Some(OpCode::LtF)
    } else if is_lit(m, "NE_F") {
        Some(OpCode::NeF)
    } else if is_lit(m, "GE_F") {
        Some(OpCode::GeF)
    } else {
        None
    }
}

fn unit_op_1(m: &[char]) -> (r: Option<OpCode>)
    ensures
        match unit_mnemonic_1(m@) {
            Some(o) => r is Some && opcode_model(r->Some_0) == o,
            None => r is None,
        },
{
    if is_lit(m, "LE_F") {
        Some(OpCode::LeF)
    } else if is_lit(m, "TRUE") {
        Some(OpCode::True)
    } else if is_lit(m, "FALSE") {
        Some(OpCode::False)
    } else if is_lit(m, "NOT") {
        Some(OpCode::Not)
    } else if is_lit(m, "AND") {
        Some(OpCode::And)
    } else if is_lit(m, "OR") {
        Some(OpCode::Or)
    } else if is_lit(m, "NULL") {
        Some(OpCode::Null)
    } else if is_lit(m, "LEN") {
        Some(OpCode::Len)
    } else if is_lit(m, "INDEX") {
        Some(OpCode::Index)
    } else if is_lit(m, "DUMP_SCOPE") {
        Some(OpCode::DumpScope)
    } else if is_lit(m, "MAKE_OBJECT") {
        Some(OpCode::MakeObject)
    } else if is_lit(m, "KEYS") {
        Some(OpCode::Keys)
    } else if is_lit(m, "CALL_FUNCTION") {
        Some(OpCode::CallFunction)
    } else if is_lit(m, "CATCH") {
        Some(OpCode::Catch)
    } else if is_lit(m, "THROW") {
        Some(OpCode::Throw)
    } else if is_lit(m, "END_TRY") {
        Some(OpCode::EndTry)
    } else if is_lit(m, "READ_FILE") {
        Some(OpCode::ReadFile)
    } else if is_lit(m, "WRITE_FILE") {
        Some(OpCode::WriteFile)
    } else if is_lit(m, "READ_LINE") {
        Some(OpCode::ReadLine)
    } else if is_lit(m, "READ_CHAR") {
        Some(OpCode::ReadChar)
    } else if is_lit(m, "READ_INPUT") {
        Some(OpCode::ReadInput)
    } else if is_lit(m, "APPEND_FILE") {
        Some(OpCode::AppendFile)
    } else if is_lit(m, "FILE_EXISTS") {
        Some(OpCode::FileExists)
    } else if is_lit(m, "FILE_SIZE") {
        Some(OpCode::FileSize)
    } else {
        None
    }
}

fn unit_op_2(m: &[char]) -> (r: Option<OpCode>)
    ensures
        match unit_mnemonic_2(m@) {
            Some(o) => r is Some && opcode_model(r->Some_0) == o,
            None => r is None,
        },
{
    if is_lit(m, "DELETE_FILE") {
        Some(OpCode::DeleteFile)
    } else if is_lit(m, "LIST_DIR") {
        Some(OpCode::ListDir)
    } else if is_lit(m, "READ_BYTES") {
        Some(OpCode::ReadBytes)
    } else if is_lit(m, "WRITE_BYTES") {
        Some(OpCode::WriteBytes)
    } else if is_lit(m, "GET_ENV") {
        Some(OpCode::GetEnv)
    } else if is_lit(m, "SET_ENV") {
        Some(OpCode::SetEnv)
    } else if is_lit(m, "GET_ARGS") {
        Some(OpCode::GetArgs)
    } else if is_lit(m, "EXEC") {
        Some(OpCode::Exec)
    } else if is_lit(m, "EXEC_CAPTURE") {
        Some(OpCode::ExecCapture)
    } else if is_lit(m, "EXIT") {
        Some(OpCode::Exit)
    } else if is_lit(m, "GET_TIME") {
        Some(OpCode::GetTime)
    } else if is_lit(m, "SLEEP") {
        Some(OpCode::Sleep)
    } else if is_lit(m, "FORMAT_TIME") {
        Some(OpCode::FormatTime)
    } else if is_lit(m, "HTTP_GET") {
        Some(OpCode::HttpGet)
    } else if is_lit(m, "HTTP_POST") {
        Some(OpCode::HttpPost)
    } else if is_lit(m, "TCP_CONNECT") {
        Some(OpCode::TcpConnect)
    } else if is_lit(m, "TCP_LISTEN") {
        Some(OpCode::TcpListen)
    } else if is_lit(m, "TCP_SEND") {
        Some(OpCode::TcpSend)
    } else if is_lit(m, "TCP_RECV") {
        Some(OpCode::TcpRecv)
    } else if is_lit(m, "UDP_BIND") {
        Some(OpCode::UdpBind)
    } else if is_lit(m, "UDP_SEND") {
        Some(OpCode::UdpSend)
    } else if is_lit(m, "UDP_RECV") {
        Some(OpCode::UdpRecv)
    } else if is_lit(m, "DNS_RESOLVE") {
        Some(OpCode::DnsResolve)
    } else if is_lit(m, "ASYNC_READ") {
        Some(OpCode::AsyncRead)
    } else {
        None
    }
}

fn unit_op_3(m: &[char]) -> (r: Option<OpCode>)
    ensures
        match unit_mnemonic_3(m@) {
            Some(o) => r is Some && opcode_model(r->Some_0) == o,
            None => r is None,
        },
{
    if is_lit(m, "ASYNC_WRITE") {
        Some(OpCode::AsyncWrite)
    } else if is_lit(m, "AWAIT") {
        Some(OpCode::Await)
    } else if is_lit(m, "STREAM_CREATE") {
        Some(OpCode::StreamCreate)
    } else if is_lit(m, "STREAM_READ") {
        Some(OpCode::StreamRead)
    } else if is_lit(m, "STREAM_WRITE") {
        Some(OpCode::StreamWrite)
    } else if is_lit(m, "STREAM_CLOSE") {
        Some(OpCode::StreamClose)
    } else if is_lit(m, "JSON_PARSE") {
        Some(OpCode::JsonParse)
    } else if is_lit(m, "JSON_STRINGIFY") {
        Some(OpCode::JsonStringify)
    } else if is_lit(m, "CSV_PARSE") {
        Some(OpCode::CsvParse)
    } else if is_lit(m, "CSV_WRITE") {
        Some(OpCode::CsvWrite)
    } else if is_lit(m, "COMPRESS") {
        Some(OpCode::Compress)
    } else if is_lit(m, "DECOMPRESS") {
        Some(OpCode::Decompress)
    } else if is_lit(m, "ENCRYPT") {
        Some(OpCode::Encrypt)
    } else if is_lit(m, "DECRYPT") {
        Some(OpCode::Decrypt)
    } else if is_lit(m, "HASH") {
        Some(OpCode::Hash)
    } else if is_lit(m, "DB_CONNECT") {
        Some(OpCode::DbConnect)
    } else if is_lit(m, "DB_QUERY") {
        Some(OpCode::DbQuery)
    } else if is_lit(m, "DB_EXEC") {
        Some(OpCode::DbExec)
    } else if is_lit(m, "YIELD") {
        Some(OpCode::Yield)
    } else if is_lit(m, "RECEIVE") {
        Some(OpCode::Receive)
    } else if is_lit(m, "SPAWN") {
        Some(OpCode::Spawn)
    } else if is_lit(m, "TRAP_EXIT") {
        Some(OpCode::TrapExit)
    } else if is_lit(m, "START_SUPERVISOR") {
        Some(OpCode::StartSupervisor)
    } else {
        None
    }
}

/// The instruction of a mnemonic that takes no operand.
pub fn unit_op(m: &[char]) -> (r: Option<OpCode>)
    ensures
        match unit_mnemonic(m@) {
            Some(o) => r is Some && opcode_model(r->Some_0) == o,
            None => r is None,
        },
{
    if let Some(o) = unit_op_0(m) {
        return Some(o);
    }
    if let Some(o) = unit_op_1(m) {
        return Some(o);
    }
    if let Some(o) = unit_op_2(m) {
        return Some(o);
    }
    if let Some(o) = unit_op_3(m) {
        return Some(o);
    }
    None
}


// ---------------------------------------------------------------------------
// First pass: labels and instruction lines

/// A source line with its comment removed and surrounding whitespace trimmed.
pub open spec fn clean_line(l: Seq<char>) -> Seq<char> {
    trim(before_char(l, ';'))
}

/// The labels (name and instruction index, in order of definition) and the
/// instruction lines (1-based line number and text) of a sequence of lines.
pub struct AsmScan {
    pub labels: Seq<(Seq<char>, usize)>,
    pub instrs: Seq<(int, Seq<char>)>,
}

/// The first pass over the first `ls.len()` lines: blank lines are skipped,
/// `LABEL name` defines `name` as the index of the next instruction, every
/// other line is an instruction.
pub open spec fn scan_lines(ls: Seq<Seq<char>>) -> AsmScan
    decreases ls.len(),
{
    if ls.len() == 0 {
        AsmScan { labels: Seq::empty(), instrs: Seq::empty() }
    } else {
        let st = scan_lines(ls.drop_last());
        let t = clean_line(ls.last());
        if t.len() == 0 {
            st
        } else if starts_with(t, "LABEL "@) {
            AsmScan { labels: st.labels.push((trim(t.skip(6)), st.instrs.len() as usize)), instrs: st.instrs }
        } else {
            AsmScan { labels: st.labels, instrs: st.instrs.push((ls.len() as int, t)) }
        }
    }
}

/// The address of a label: its last definition wins.
pub open spec fn lookup_label(labels: Seq<(Seq<char>, usize)>, name: Seq<char>) -> Option<usize>
    decreases labels.len(),
{
    if labels.len() == 0 {
        None
    } else if labels.last().0 == name {
        Some(labels.last().1)
    } else {
        lookup_label(labels.drop_last(), name)
    }
}

/// A jump or call target: a number, or else a label.
pub open spec fn resolve_target(labels: Seq<(Seq<char>, usize)>, name: Seq<char>) -> Option<usize> {
    match parse_usize(name) {
        Some(a) => Some(a),
        None => lookup_label(labels, name),
    }
}

// ---------------------------------------------------------------------------
// Second pass: instructions

/// Why a program text cannot be assembled.
pub enum AsmFault {
    /// `ParseError { line, instruction }` of the machine.
    Parse { line: int, text: Seq<char> },
    /// A label that is never defined.
    UnknownLabel(Seq<char>),
    /// A line that lacks an operand its instruction needs (the assembler
    /// aborts on it).
    Malformed { line: int },
}

/// The mnemonic of an instruction line: the text before its first space.
pub open spec fn mnemonic(t: Seq<char>) -> Seq<char> {
    before_char(t, ' ')
}

/// Whether an instruction line has an operand part after its mnemonic.
pub open spec fn has_operand(t: Seq<char>) -> bool {
    mnemonic(t).len() < t.len()
}

/// The operand part of an instruction line: the text after the first space.
pub open spec fn operand(t: Seq<char>) -> Seq<char> {
    t.skip((mnemonic(t).len() + 1) as int)
}

/// A call-like instruction (`CALL`, `MAKE_FUNCTION`, `MAKE_LAMBDA`): the
/// target and the parameter names, from the words of the operand.
pub open spec fn call_parts(
    labels: Seq<(Seq<char>, usize)>,
    n: int,
    arg: Seq<char>,
) -> Result<(usize, Seq<Seq<char>>), AsmFault> {
    let ws = words(arg);
    if ws.len() == 0 {
        Err(AsmFault::Malformed { line: n })
    } else {
        match resolve_target(labels, ws[0]) {
            Some(a) => Ok((a, ws.skip(1))),
            None => Err(AsmFault::UnknownLabel(ws[0])),
        }
    }
}

/// Instructions whose operand is a name, trimmed of whitespace.
pub open spec fn trimmed_name_op(m: Seq<char>, a: Seq<char>) -> Option<OpCodeModel> {
    if m == "STORE"@ {
        Some(OpCodeModel::Store(a))
    } else if m == "DELETE"@ {
        Some(OpCodeModel::Delete(a))
    } else if m == "LOAD"@ {
        Some(OpCodeModel::Load(a))
    } else if m == "SET_FIELD"@ {
        Some(OpCodeModel::SetField(a))
    } else if m == "GET_FIELD"@ {
        Some(OpCodeModel::GetField(a))
    } else if m == "HAS_FIELD"@ {
        Some(OpCodeModel::HasField(a))
    } else if m == "DELETE_FIELD"@ {
        Some(OpCodeModel::DeleteField(a))
    } else if m == "CAPTURE"@ {
        Some(OpCodeModel::Capture(a))
    } else if m == "EXPORT"@ {
        Some(OpCodeModel::Export(a))
    } else {
        None
    }
}

/// Instructions whose operand is a name with its quotes trimmed.
pub open spec fn quoted_name_op(m: Seq<char>, a: Seq<char>) -> Option<OpCodeModel> {
    if m == "PUSH_STR"@ {
        Some(OpCodeModel::PushStr(a))
    } else if m == "REGISTER"@ {
        Some(OpCodeModel::Register(a))
    } else if m == "WHEREIS"@ {
        Some(OpCodeModel::Whereis(a))
    } else if m == "SENDNAMED"@ {
        Some(OpCodeModel::SendNamed(a))
    } else if m == "UNREGISTER"@ {
        Some(OpCodeModel::Unregister(a))
    } else if m == "SUPERVISE_CHILD"@ {
        Some(OpCodeModel::SuperviseChild(a))
    } else if m == "RESTART_CHILD"@ {
        Some(OpCodeModel::RestartChild(a))
    } else if m == "DEMONITOR"@ {
        Some(OpCodeModel::Demonitor(a))
    } else {
        None
    }
}

/// Instructions whose operand is a process identifier.
pub open spec fn pid_op(m: Seq<char>, p: u64) -> Option<OpCodeModel> {
    if m == "SEND"@ {
        Some(OpCodeModel::Send(p))
    } else if m == "LINK"@ {
        Some(OpCodeModel::Link(p))
    } else if m == "UNLINK"@ {
        Some(OpCodeModel::Unlink(p))
    } else if m == "MONITOR"@ {
        Some(OpCodeModel::Monitor(p))
    } else {
        None
    }
}

/// Whether `m` is one of the mnemonics whose operand is a process identifier.
pub open spec fn is_pid_mnemonic(m: Seq<char>) -> bool {
    pid_op(m, 0) is Some
}

/// The instruction of line `n` with text `t` that has an operand.
/// `float` is the host's reading of the operand of a `PUSH_FLOAT` line.
pub open spec fn operand_instruction(
    labels: Seq<(Seq<char>, usize)>,
    n: int,
    t: Seq<char>,
    float: Option<u64>,
) -> Result<OpCodeModel, AsmFault> {
    let m = mnemonic(t);
    let arg = operand(t);
    if m == "PUSH_INT"@ {
        match parse_i64(arg) {
            Some(v) => Ok(OpCodeModel::PushInt(v)),
            None => Err(AsmFault::Parse { line: n, text: "Invalid integer: "@ + arg }),
        }
    } else if m == "PUSH_FLOAT"@ {
        match float {
            Some(b) => Ok(OpCodeModel::PushFloat(b)),
            None => Err(AsmFault::Parse { line: n, text: "Invalid float: "@ + arg }),
        }
    } else if m == "PUSH_BOOL"@ {
        if arg == "true"@ {
            Ok(OpCodeModel::PushBool(true))
        } else if arg == "false"@ {
            Ok(OpCodeModel::PushBool(false))
        } else {
            Err(AsmFault::Parse { line: n, text: "Invalid boolean: "@ + arg })
        }
    } else if m == "CALL"@ {
        match call_parts(labels, n, arg) {
            Ok((a, ps)) => Ok(OpCodeModel::Call { addr: a, params: ps }),
            Err(f) => Err(f),
        }
    } else if m == "MAKE_FUNCTION"@ {
        match call_parts(labels, n, arg) {
            Ok((a, ps)) => Ok(OpCodeModel::MakeFunction { addr: a, params: ps }),
            Err(f) => Err(f),
        }
    } else if m == "MAKE_LAMBDA"@ {
        if words(arg).len() == 0 {
            Err(AsmFault::Parse { line: n, text: t })
        } else {
            match call_parts(labels, n, arg) {
                Ok((a, ps)) => Ok(OpCodeModel::MakeLambda { addr: a, params: ps }),
                Err(f) => Err(f),
            }
        }
    } else if m == "JMP"@ || m == "JZ"@ {
        match resolve_target(labels, trim(arg)) {
            Some(a) => Ok(if m == "JMP"@ {
                OpCodeModel::Jmp(a)
            } else {
                OpCodeModel::Jz(a)
            }),
            None => Err(AsmFault::UnknownLabel(trim(arg))),
        }
    } else if m == "TRY"@ {
        match lookup_label(labels, trim(arg)) {
            Some(a) => Ok(OpCodeModel::Try { catch_addr: a }),
            None => Err(AsmFault::UnknownLabel(trim(arg))),
        }
    } else if m == "MAKE_LIST"@ {
        match parse_usize(arg) {
            Some(k) => Ok(OpCodeModel::MakeList(k)),
            None => Err(AsmFault::Parse { line: n, text: "Invalid list size: "@ + arg }),
        }
    } else if m == "IMPORT"@ {
        let p = trim(arg);
        if p.len() > 0 && p[0] == '"' && p.last() == '"' {
            if p.len() < 2 {
                Err(AsmFault::Malformed { line: n })
            } else {
                Ok(OpCodeModel::Import(p.subrange(1, p.len() - 1)))
            }
        } else {
            Ok(OpCodeModel::Import(p))
        }
    } else if is_pid_mnemonic(m) {
        match parse_u64(arg) {
            Some(p) => Ok(pid_op(m, p)->Some_0),
            None => Err(AsmFault::Parse { line: n, text: "Invalid PID: "@ + arg }),
        }
    } else {
        match trimmed_name_op(m, trim(arg)) {
            Some(o) => Ok(o),
            None => match quoted_name_op(m, trim_char(arg, '"')) {
                Some(o) => Ok(o),
                None => Err(AsmFault::Parse { line: n, text: t }),
            },
        }
    }
}

/// Whether the instruction of `m` needs an operand.
pub open spec fn needs_operand(m: Seq<char>) -> bool {
    m == "PUSH_INT"@ || m == "PUSH_FLOAT"@ || m == "PUSH_BOOL"@ || m == "JMP"@ || m == "JZ"@ || m == "TRY"@
        || m == "MAKE_LIST"@ || m == "IMPORT"@ || is_pid_mnemonic(m) || trimmed_name_op(m, Seq::empty()) is Some
        || quoted_name_op(m, Seq::empty()) is Some
}

/// The instruction of line `n` with text `t`.
pub open spec fn line_instruction(
    labels: Seq<(Seq<char>, usize)>,
    n: int,
    t: Seq<char>,
    float: Option<u64>,
) -> Result<OpCodeModel, AsmFault> {
    let m = mnemonic(t);
    match unit_mnemonic(m) {
        Some(o) => Ok(o),
        None => if has_operand(t) {
            operand_instruction(labels, n, t, float)
        } else if m == "CALL"@ {
            Err(AsmFault::Parse { line: n, text: "CALL requires at least a target"@ })
        } else if m == "MAKE_FUNCTION"@ {
            Err(AsmFault::Parse { line: n, text: "MAKE_FUNCTION requires at least a target"@ })
        } else if m == "MAKE_LAMBDA"@ {
            Err(AsmFault::Parse { line: n, text: t })
        } else if needs_operand(m) {
            Err(AsmFault::Malformed { line: n })
        } else {
            Err(AsmFault::Parse { line: n, text: t })
        },
    }
}

/// Whether an instruction line is a `PUSH_FLOAT` with an operand.
pub open spec fn is_float_line(t: Seq<char>) -> bool {
    mnemonic(t) == "PUSH_FLOAT"@ && has_operand(t)
}

/// The operands of the `PUSH_FLOAT` lines among `ins`, in order.
pub open spec fn float_operands(ins: Seq<(int, Seq<char>)>) -> Seq<Seq<char>>
    decreases ins.len(),
{
    if ins.len() == 0 {
        Seq::empty()
    } else if is_float_line(ins.last().1) {
        float_operands(ins.drop_last()).push(operand(ins.last().1))
    } else {
        float_operands(ins.drop_last())
    }
}

/// The host's reading of the `k`-th float operand.
pub open spec fn float_at(floats: Seq<Option<u64>>, k: int) -> Option<u64> {
    if 0 <= k < floats.len() {
        floats[k]
    } else {
        None
    }
}

/// The second pass over the instruction lines `ins`: the first faulty line
/// decides the error.
pub open spec fn assemble(
    labels: Seq<(Seq<char>, usize)>,
    ins: Seq<(int, Seq<char>)>,
    floats: Seq<Option<u64>>,
) -> Result<Seq<OpCodeModel>, AsmFault>
    decreases ins.len(),
{
    if ins.len() == 0 {
        Ok(Seq::empty())
    } else {
        match assemble(labels, ins.drop_last(), floats) {
            Err(f) => Err(f),
            Ok(prog) => match line_instruction(
                labels,
                ins.last().0,
                ins.last().1,
                float_at(floats, float_operands(ins.drop_last()).len() as int),
            ) {
                Ok(o) => Ok(prog.push(o)),
                Err(f) => Err(f),
            },
        }
    }
}

/// The program that a source text denotes, given the host's readings of its
/// float operands (in the order of [`float_literals`]).
pub open spec fn program_of(content: Seq<char>, floats: Seq<Option<u64>>) -> Result<Seq<OpCodeModel>, AsmFault> {
    let sc = scan_lines(lines(content));
    assemble(sc.labels, sc.instrs, floats)
}

/// The error of the assembler.
#[derive(Debug, PartialEq)]
pub enum AssemblyError {
    /// An error the machine reports (`ParseError` or `UnknownLabel`).
    Vm(VMError),
    /// A line lacks an operand that its instruction needs.
    Malformed { line: usize },
}

/// `e` is the error that `f` describes.
pub open spec fn is_fault(e: AssemblyError, f: AsmFault) -> bool {
    match (e, f) {
        (AssemblyError::Vm(VMError::ParseError { line, instruction }), AsmFault::Parse { line: l, text }) => line
            == l && instruction@ == text,
        (AssemblyError::Vm(VMError::UnknownLabel(s)), AsmFault::UnknownLabel(t)) => s@ == t,
        (AssemblyError::Malformed { line }, AsmFault::Malformed { line: l }) => line == l,
        _ => false,
    }
}


// ---------------------------------------------------------------------------
// Implementation

/// The model of a label table.
pub open spec fn labels_model(v: Seq<(Vec<char>, usize)>) -> Seq<(Seq<char>, usize)> {
    Seq::new(v.len(), |i: int| (v[i].0@, v[i].1))
}

/// The model of a list of instruction lines.
pub open spec fn instrs_model(v: Seq<(usize, Vec<char>)>) -> Seq<(int, Seq<char>)> {
    Seq::new(v.len(), |i: int| (v[i].0 as int, v[i].1@))
}

/// The first pass over the lines of a text.
pub fn scan(content: &[char]) -> (r: (Vec<(Vec<char>, usize)>, Vec<(usize, Vec<char>)>))
    ensures
        labels_model(r.0@) == scan_lines(lines(content@)).labels,
        instrs_model(r.1@) == scan_lines(lines(content@)).instrs,
{
    let ls = split_lines(content);
    let ghost lsm = char_seqs(ls@);
    let mut labels: Vec<(Vec<char>, usize)> = Vec::new();
    let mut instrs: Vec<(usize, Vec<char>)> = Vec::new();
    let mut k: usize = 0;
    assert(lsm.take(0) =~= Seq::<Seq<char>>::empty());
    assert(labels_model(labels@) =~= Seq::<(Seq<char>, usize)>::empty());
    assert(instrs_model(instrs@) =~= Seq::<(int, Seq<char>)>::empty());
    while k < ls.len()
        invariant
            k <= ls@.len(),
            lsm == char_seqs(ls@),
            lsm == lines(content@),
            labels_model(labels@) == scan_lines(lsm.take(k as int)).labels,
            instrs_model(instrs@) == scan_lines(lsm.take(k as int)).instrs,
        decreases ls.len() - k,
    {
        assert(lsm.take(k + 1).drop_last() =~= lsm.take(k as int));
        assert(lsm.take(k + 1).last() == ls@[k as int]@);
        let line = ls[k].as_slice();
        let cut = find_char(line, ';');
        let head = sub_chars(line, 0, cut);
        assert(head@ =~= before_char(line@, ';'));
        let t = trim_chars(head.as_slice());
        if t.len() == 0 {
        } else if chars_start_with(t.as_slice(), "LABEL ") {
            proof {
                reveal_strlit("LABEL ");
            }
            let rest = sub_chars(t.as_slice(), 6, t.len());
            assert(rest@ =~= t@.skip(6));
            let name = trim_chars(rest.as_slice());
            let ghost before = labels_model(labels@);
            labels.push((name, instrs.len()));
            assert(labels_model(labels@) =~= before.push((trim(t@.skip(6)), instrs@.len() as usize)));
        } else {
            let ghost before = instrs_model(instrs@);
            assert(k + 1 <= usize::MAX);
            instrs.push((k + 1, t));
            assert(instrs_model(instrs@) =~= before.push(((k + 1) as int, t@)));
        }
        k = k + 1;
    }
    assert(lsm.take(ls@.len() as int) =~= lsm);
    (labels, instrs)
}

/// The address of a label (its last definition).
pub fn find_label(labels: &Vec<(Vec<char>, usize)>, name: &[char]) -> (r: Option<usize>)
    ensures
        r == lookup_label(labels_model(labels@), name@),
{
    let ghost lm = labels_model(labels@);
    let mut k = labels.len();
    assert(lm.take(k as int) =~= lm);
    while k > 0
        invariant
            k <= labels@.len(),
            lm == labels_model(labels@),
            lookup_label(lm.take(k as int), name@) == lookup_label(lm, name@),
        decreases k,
    {
        let ghost t = lm.take(k as int);
        assert(t.last() == lm[k - 1]);
        assert(t.drop_last() =~= lm.take(k - 1));
        if chars_eq(labels[k - 1].0.as_slice(), name) {
            return Some(labels[k - 1].1);
        }
        k = k - 1;
    }
    None
}

/// A jump or call target: a number, or else a label.
pub fn resolve(labels: &Vec<(Vec<char>, usize)>, name: &[char]) -> (r: Option<usize>)
    ensures
        r == resolve_target(labels_model(labels@), name@),
{
    match parse_usize_chars(name) {
        Some(a) => Some(a),
        None => find_label(labels, name),
    }
}

fn message(prefix: &str, rest: &[char]) -> (r: String)
    ensures
        r@ == prefix@ + rest@,
{
    let mut v = chars_of(prefix);
    append_chars(&mut v, rest);
    string_of(v.as_slice())
}

fn parse_error(line: usize, text: String) -> (e: AssemblyError)
    ensures
        e == AssemblyError::Vm(VMError::ParseError { line, instruction: text }),
{
    AssemblyError::Vm(VMError::ParseError { line, instruction: text })
}

pub(crate) fn strings_of(v: &Vec<Vec<char>>, from: usize) -> (r: Vec<String>)
    requires
        from <= v@.len(),
    ensures
        strings_model(r@) == char_seqs(v@).skip(from as int),
{
    let mut r: Vec<String> = Vec::new();
    let mut i = from;
    while i < v.len()
        invariant
            from <= i <= v@.len(),
            strings_model(r@) == char_seqs(v@).subrange(from as int, i as int),
        decreases v.len() - i,
    {
        let ghost before = strings_model(r@);
        r.push(string_of(v[i].as_slice()));
        assert(strings_model(r@) =~= before.push(v@[i as int]@));
        assert(char_seqs(v@).subrange(from as int, i + 1) =~= char_seqs(v@).subrange(from as int, i as int).push(
            v@[i as int]@,
        ));
        i = i + 1;
    }
    assert(char_seqs(v@).subrange(from as int, v@.len() as int) =~= char_seqs(v@).skip(from as int));
    r
}

fn call_parts_exec(labels: &Vec<(Vec<char>, usize)>, n: usize, arg: &[char]) -> (r: Result<
    (usize, Vec<String>),
    AssemblyError,
>)
    ensures
        match call_parts(labels_model(labels@), n as int, arg@) {
            Ok((a, ps)) => r is Ok && r->Ok_0.0 == a && strings_model(r->Ok_0.1@) == ps,
            Err(f) => r is Err && is_fault(r->Err_0, f),
        },
{
    let ws = split_words(arg);
    if ws.len() == 0 {
        return Err(AssemblyError::Malformed { line: n });
    }
    assert(char_seqs(ws@)[0] == ws@[0]@);
    match resolve(labels, ws[0].as_slice()) {
        Some(a) => Ok((a, strings_of(&ws, 1))),
        None => Err(AssemblyError::Vm(VMError::UnknownLabel(string_of(ws[0].as_slice())))),
    }
}


fn pid_exec(m: &[char], p: u64) -> (r: Option<OpCode>)
    ensures
        match pid_op(m@, p) {
            Some(o) => r is Some && opcode_model(r->Some_0) == o,
            None => r is None,
        },
{
    if is_lit(m, "SEND") {
        Some(OpCode::Send(p))
    } else if is_lit(m, "LINK") {
        Some(OpCode::Link(p))
    } else if is_lit(m, "UNLINK") {
        Some(OpCode::Unlink(p))
    } else if is_lit(m, "MONITOR") {
        Some(OpCode::Monitor(p))
    } else {
        None
    }
}

fn trimmed_name_exec(m: &[char], a: String) -> (r: Option<OpCode>)
    ensures
        match trimmed_name_op(m@, a@) {
            Some(o) => r is Some && opcode_model(r->Some_0) == o,
            None => r is None,
        },
{
    if is_lit(m, "STORE") {
        Some(OpCode::Store(a))
    } else if is_lit(m, "DELETE") {
        Some(OpCode::Delete(a))
    } else if is_lit(m, "LOAD") {
        Some(OpCode::Load(a))
    } else if is_lit(m, "SET_FIELD") {
        Some(OpCode::SetField(a))
    } else if is_lit(m, "GET_FIELD") {
        Some(OpCode::GetField(a))
    } else if is_lit(m, "HAS_FIELD") {
        Some(OpCode::HasField(a))
    } else if is_lit(m, "DELETE_FIELD") {
        Some(OpCode::DeleteField(a))
    } else if is_lit(m, "CAPTURE") {
        Some(OpCode::Capture(a))
    } else if is_lit(m, "EXPORT") {
        Some(OpCode::Export(a))
    } else {
        None
    }
}

fn quoted_name_exec(m: &[char], a: String) -> (r: Option<OpCode>)
    ensures
        match quoted_name_op(m@, a@) {
            Some(o) => r is Some && opcode_model(r->Some_0) == o,
            None => r is None,
        },
{
    if is_lit(m, "PUSH_STR") {
        Some(OpCode::PushStr(a))
    } else if is_lit(m, "REGISTER") {
        Some(OpCode::Register(a))
    } else if is_lit(m, "WHEREIS") {
        Some(OpCode::Whereis(a))
    } else if is_lit(m, "SENDNAMED") {
        Some(OpCode::SendNamed(a))
    } else if is_lit(m, "UNREGISTER") {
        Some(OpCode::Unregister(a))
    } else if is_lit(m, "SUPERVISE_CHILD") {
        Some(OpCode::SuperviseChild(a))
    } else if is_lit(m, "RESTART_CHILD") {
        Some(OpCode::RestartChild(a))
    } else if is_lit(m, "DEMONITOR") {
        Some(OpCode::Demonitor(a))
    } else {
        None
    }
}

fn operand_instruction_exec(
    labels: &Vec<(Vec<char>, usize)>,
    n: usize,
    t: &[char],
    m: &[char],
    arg: &[char],
    float: Option<u64>,
) -> (r: Result<OpCode, AssemblyError>)
    requires
        m@ == mnemonic(t@),
        arg@ == operand(t@),
    ensures
        match operand_instruction(labels_model(labels@), n as int, t@, float) {
            Ok(o) => r is Ok && opcode_model(r->Ok_0) == o,
            Err(f) => r is Err && is_fault(r->Err_0, f),
        },
{
    if is_lit(m, "PUSH_INT") {
        match parse_i64_chars(arg) {
            Some(v) => Ok(OpCode::PushInt(v)),
            None => Err(parse_error(n, message("Invalid integer: ", arg))),
        }
    } else if is_lit(m, "PUSH_FLOAT") {
        match float {
            Some(b) => Ok(OpCode::PushFloat(b)),
            None => Err(parse_error(n, message("Invalid float: ", arg))),
        }
    } else if is_lit(m, "PUSH_BOOL") {
        if is_lit(arg, "true") {
            Ok(OpCode::PushBool(true))
        } else if is_lit(arg, "false") {
            Ok(OpCode::PushBool(false))
        } else {
            Err(parse_error(n, message("Invalid boolean: ", arg)))
        }
    } else if is_lit(m, "CALL") {
        match call_parts_exec(labels, n, arg) {
            Ok((a, ps)) => Ok(OpCode::Call { addr: a, params: ps }),
            Err(e) => Err(e),
        }
    } else if is_lit(m, "MAKE_FUNCTION") {
        match call_parts_exec(labels, n, arg) {
            Ok((a, ps)) => Ok(OpCode::MakeFunction { addr: a, params: ps }),
            Err(e) => Err(e),
        }
    } else if is_lit(m, "MAKE_LAMBDA") {
        let ws = split_words(arg);
        if ws.len() == 0 {
            return Err(parse_error(n, string_of(t)));
        }
        match call_parts_exec(labels, n, arg) {
            Ok((a, ps)) => Ok(OpCode::MakeLambda { addr: a, params: ps }),
            Err(e) => Err(e),
        }
    } else if is_lit(m, "JMP") || is_lit(m, "JZ") {
        let l = trim_chars(arg);
        match resolve(labels, l.as_slice()) {
            Some(a) => Ok(
                if is_lit(m, "JMP") {
                    OpCode::Jmp(a)
                } else {
                    OpCode::Jz(a)
                },
            ),
            None => Err(AssemblyError::Vm(VMError::UnknownLabel(string_of(l.as_slice())))),
        }
    } else if is_lit(m, "TRY") {
        let l = trim_chars(arg);
        match find_label(labels, l.as_slice()) {
            Some(a) => Ok(OpCode::Try { catch_addr: a }),
            None => Err(AssemblyError::Vm(VMError::UnknownLabel(string_of(l.as_slice())))),
        }
    } else if is_lit(m, "MAKE_LIST") {
        match parse_usize_chars(arg) {
            Some(k) => Ok(OpCode::MakeList(k)),
            None => Err(parse_error(n, message("Invalid list size: ", arg))),
        }
    } else if is_lit(m, "IMPORT") {
        let p = trim_chars(arg);
        if p.len() > 0 && p[0] == '"' && p[p.len() - 1] == '"' {
            if p.len() < 2 {
                Err(AssemblyError::Malformed { line: n })
            } else {
                let inner = sub_chars(p.as_slice(), 1, p.len() - 1);
                Ok(OpCode::Import(string_of(inner.as_slice())))
            }
        } else {
            Ok(OpCode::Import(string_of(p.as_slice())))
        }
    } else if pid_exec(m, 0).is_some() {
        match parse_u64_chars(arg) {
            Some(p) => match pid_exec(m, p) {
                Some(o) => Ok(o),
                None => Err(AssemblyError::Malformed { line: n }),
            },
            None => Err(parse_error(n, message("Invalid PID: ", arg))),
        }
    } else {
        let tn = trim_chars(arg);
        match trimmed_name_exec(m, string_of(tn.as_slice())) {
            Some(o) => Ok(o),
            None => {
                let qn = trim_char_exec(arg, '"');
                match quoted_name_exec(m, string_of(qn.as_slice())) {
                    Some(o) => Ok(o),
                    None => Err(parse_error(n, string_of(t))),
                }
            },
        }
    }
}


fn needs_operand_exec(m: &[char]) -> (b: bool)
    ensures
        b == needs_operand(m@),
{
    let empty = String::new();
    is_lit(m, "PUSH_INT") || is_lit(m, "PUSH_FLOAT") || is_lit(m, "PUSH_BOOL") || is_lit(m, "JMP") || is_lit(
        m,
        "JZ",
    ) || is_lit(m, "TRY") || is_lit(m, "MAKE_LIST") || is_lit(m, "IMPORT") || pid_exec(m, 0).is_some()
        || trimmed_name_exec(m, empty.clone()).is_some() || quoted_name_exec(m, empty).is_some()
}

/// The instruction of line `n` with text `t`; `float` is the host's reading
/// of the operand if it is a `PUSH_FLOAT` line.
pub fn line_instruction_exec(labels: &Vec<(Vec<char>, usize)>, n: usize, t: &[char], float: Option<u64>) -> (r:
    Result<OpCode, AssemblyError>)
    ensures
        match line_instruction(labels_model(labels@), n as int, t@, float) {
            Ok(o) => r is Ok && opcode_model(r->Ok_0) == o,
            Err(f) => r is Err && is_fault(r->Err_0, f),
        },
{
    let cut = find_char(t, ' ');
    let m = sub_chars(t, 0, cut);
    assert(m@ =~= mnemonic(t@));
    match unit_op(m.as_slice()) {
        Some(o) => {
            return Ok(o);
        },
        None => {},
    }
    if cut < t.len() {
        let arg = sub_chars(t, cut + 1, t.len());
        assert(arg@ =~= operand(t@));
        operand_instruction_exec(labels, n, t, m.as_slice(), arg.as_slice(), float)
    } else if is_lit(m.as_slice(), "CALL") {
        Err(parse_error(n, string_of(chars_of("CALL requires at least a target").as_slice())))
    } else if is_lit(m.as_slice(), "MAKE_FUNCTION") {
        Err(parse_error(n, string_of(chars_of("MAKE_FUNCTION requires at least a target").as_slice())))
    } else if is_lit(m.as_slice(), "MAKE_LAMBDA") {
        Err(parse_error(n, string_of(t)))
    } else if needs_operand_exec(m.as_slice()) {
        Err(AssemblyError::Malformed { line: n })
    } else {
        Err(parse_error(n, string_of(t)))
    }
}

fn is_float_line_exec(t: &[char]) -> (r: Option<Vec<char>>)
    ensures
        match r {
            Some(a) => is_float_line(t@) && a@ == operand(t@),
            None => !is_float_line(t@),
        },
{
    let cut = find_char(t, ' ');
    let m = sub_chars(t, 0, cut);
    assert(m@ =~= mnemonic(t@));
    if cut < t.len() && is_lit(m.as_slice(), "PUSH_FLOAT") {
        let arg = sub_chars(t, cut + 1, t.len());
        assert(arg@ =~= operand(t@));
        Some(arg)
    } else {
        None
    }
}

/// The operands of the `PUSH_FLOAT` instructions of a program text, in
/// order: the host reads them as floating-point numbers for
/// [`parse_program`].
pub fn float_literals(content: &str) -> (r: Vec<String>)
    ensures
        string_seqs(r@) == float_operands(scan_lines(lines(content@)).instrs),
{
    let chars = chars_of(content);
    let (_labels, instrs) = scan(chars.as_slice());
    let ghost im = instrs_model(instrs@);
    let mut out: Vec<String> = Vec::new();
    let mut k: usize = 0;
    assert(im.take(0) =~= Seq::<(int, Seq<char>)>::empty());
    assert(string_seqs(out@) =~= Seq::<Seq<char>>::empty());
    while k < instrs.len()
        invariant
            k <= instrs@.len(),
            im == instrs_model(instrs@),
            string_seqs(out@) == float_operands(im.take(k as int)),
        decreases instrs.len() - k,
    {
        assert(im.take(k + 1).drop_last() =~= im.take(k as int));
        assert(im.take(k + 1).last() == (instrs@[k as int].0 as int, instrs@[k as int].1@));
        match is_float_line_exec(instrs[k].1.as_slice()) {
            Some(a) => {
                let ghost before = string_seqs(out@);
                out.push(string_of(a.as_slice()));
                assert(string_seqs(out@) =~= before.push(a@));
            },
            None => {},
        }
        k = k + 1;
    }
    assert(im.take(instrs@.len() as int) =~= im);
    out
}

proof fn lemma_assemble_error_persists(
    labels: Seq<(Seq<char>, usize)>,
    ins: Seq<(int, Seq<char>)>,
    floats: Seq<Option<u64>>,
    j: int,
)
    requires
        0 <= j <= ins.len(),
        assemble(labels, ins.take(j), floats) is Err,
    ensures
        assemble(labels, ins, floats) == assemble(labels, ins.take(j), floats),
    decreases ins.len() - j,
{
    if j < ins.len() {
        let longer = ins.take(j + 1);
        assert(longer.drop_last() =~= ins.take(j));
        assert(assemble(labels, longer, floats) == assemble(labels, ins.take(j), floats));
        lemma_assemble_error_persists(labels, ins, floats, j + 1);
    } else {
        assert(ins.take(j) =~= ins);
    }
}

/// Assembles a program text. `floats[k]` is the host's reading of the `k`-th
/// float operand listed by [`float_literals`] (`None` if it is no number).
pub fn parse_program(content: &str, floats: &Vec<Option<u64>>) -> (r: Result<Vec<OpCode>, AssemblyError>)
    ensures
        match program_of(content@, floats@) {
            Ok(p) => r is Ok && program_model(r->Ok_0@) == p,
            Err(f) => r is Err && is_fault(r->Err_0, f),
        },
{
    let chars = chars_of(content);
    let (labels, instrs) = scan(chars.as_slice());
    let ghost lm = labels_model(labels@);
    let ghost im = instrs_model(instrs@);
    let mut program: Vec<OpCode> = Vec::new();
    let mut fk: usize = 0;
    let mut k: usize = 0;
    assert(im.take(0) =~= Seq::<(int, Seq<char>)>::empty());
    assert(program_model(program@) =~= Seq::<OpCodeModel>::empty());
    while k < instrs.len()
        invariant
            k <= instrs@.len(),
            im == instrs_model(instrs@),
            lm == labels_model(labels@),
            im == scan_lines(lines(content@)).instrs,
            lm == scan_lines(lines(content@)).labels,
            fk as nat == float_operands(im.take(k as int)).len(),
            fk <= k,
            assemble(lm, im.take(k as int), floats@) == Ok::<Seq<OpCodeModel>, AsmFault>(program_model(program@)),
        decreases instrs.len() - k,
    {
        assert(im.take(k + 1).drop_last() =~= im.take(k as int));
        assert(im.take(k + 1).last() == (instrs@[k as int].0 as int, instrs@[k as int].1@));
        let t = instrs[k].1.as_slice();
        let n = instrs[k].0;
        let float = if fk < floats.len() {
            floats[fk]
        } else {
            None
        };
        let is_float = is_float_line_exec(t).is_some();
        match line_instruction_exec(&labels, n, t, float) {
            Ok(o) => {
                let ghost before = program_model(program@);
                program.push(o);
                assert(program_model(program@) =~= before.push(opcode_model(o)));
            },
            Err(e) => {
                proof {
                    lemma_assemble_error_persists(lm, im, floats@, k + 1);
                }
                return Err(e);
            },
        }
        if is_float {
            fk = fk + 1;
        }
        k = k + 1;
    }
    assert(im.take(instrs@.len() as int) =~= im);
    Ok(program)
}

} // verus!
