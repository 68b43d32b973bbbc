//! The bytecode compiler: turns assembly text into the binary `.ttb`
//! format that [`crate::bytecode::load_bytecode`] reads back.
use vstd::prelude::*;
use vstd::utf8::encode_utf8;
use crate::text::{
    before_char, char_seqs, chars_of, chars_start_with, lines, parse_i64, parse_i64_chars,
    parse_u64, parse_u64_chars, parse_u8, parse_u8_chars, split_lines, split_words, starts_with,
    string_of, sub_chars, trim, trim_char, trim_char_exec, trim_chars, words, find_char,
};
use crate::assembler::{has_operand, is_lit, labels_model, lookup_label, mnemonic, operand, find_label, strings_of};
use crate::vm::opcode::{OpCode, OpCodeModel, opcode_model, program_model};
use crate::vm::value::strings_model;
use crate::bytecode::{decode_from, decode_one, le_value, pid_code, pow256, read_str, read_strs, string_code, unit_code};
use vstd::utf8::{encode_utf8_decode_utf8, encode_utf8_valid_utf8};

verus! {

// ---------------------------------------------------------------------------
// Byte encoding

/// The `k` low bytes of `v`, least significant first (`to_le_bytes`).
pub open spec fn le_bytes(v: nat, k: nat) -> Seq<u8>
    decreases k,
{
    if k == 0 {
        Seq::empty()
    } else {
        seq![(v % 256) as u8] + le_bytes(v / 256, (k - 1) as nat)
    }
}

/// A 16-bit instruction code.
pub open spec fn code_bytes(c: int) -> Seq<u8> {
    le_bytes(c as nat, 2)
}

/// A string operand: its UTF-8 length as a 16-bit number, then its bytes.
pub open spec fn str_bytes(s: Seq<char>) -> Seq<u8> {
    le_bytes((encode_utf8(s).len() as u16) as nat, 2) + encode_utf8(s)
}

/// Several string operands, one after the other.
pub open spec fn strs_bytes(ss: Seq<Seq<char>>) -> Seq<u8>
    decreases ss.len(),
{
    if ss.len() == 0 {
        Seq::empty()
    } else {
        str_bytes(ss[0]) + strs_bytes(ss.drop_first())
    }
}

/// The code of an instruction without operands.
pub open spec fn unit_code_of(op: OpCodeModel) -> Option<int> {
    match op {
        OpCodeModel::True => Some(0x03),
        OpCodeModel::False => Some(0x04),
        OpCodeModel::Null => Some(0x05),
        OpCodeModel::Not => Some(0x06),
        OpCodeModel::And => Some(0x07),
        OpCodeModel::Or => Some(0x08),
        OpCodeModel::Dup => Some(0x09),
        OpCodeModel::Add => Some(0x10),
        OpCodeModel::Sub => Some(0x11),
        OpCodeModel::Concat => Some(0x12),
        OpCodeModel::Eq => Some(0x20),
        OpCodeModel::Gt => Some(0x21),
        OpCodeModel::Lt => Some(0x22),
        OpCodeModel::Ne => Some(0x23),
        OpCodeModel::Ge => Some(0x24),
        OpCodeModel::Le => Some(0x25),
        OpCodeModel::Ret => Some(0x33),
        OpCodeModel::Print => Some(0x40),
        OpCodeModel::Len => Some(0x61),
        OpCodeModel::Index => Some(0x62),
        OpCodeModel::DumpScope => Some(0x70),
        OpCodeModel::ReadFile => Some(0x72),
        OpCodeModel::WriteFile => Some(0x73),
        OpCodeModel::Spawn => Some(0x80),
        OpCodeModel::StartSupervisor => Some(0x88),
        OpCodeModel::Yield => Some(0x8B),
        OpCodeModel::Receive => Some(0x8C),
        OpCodeModel::Halt => Some(0xFF),
        _ => None,
    }
}

/// The bytes of one instruction; empty for an instruction that the binary
/// format cannot hold.
pub open spec fn encode_op(op: OpCodeModel) -> Seq<u8> {
    match op {
        OpCodeModel::PushInt(n) => code_bytes(0x01) + le_bytes((n as u64) as nat, 8),
        OpCodeModel::PushStr(s) => code_bytes(0x02) + str_bytes(s),
        OpCodeModel::Jmp(a) => code_bytes(0x30) + le_bytes((a as u16) as nat, 2),
        OpCodeModel::Jz(a) => code_bytes(0x31) + le_bytes((a as u16) as nat, 2),
        OpCodeModel::Call { addr, params } => code_bytes(0x32) + le_bytes((addr as u16) as nat, 2)
            + le_bytes((params.len() as u16) as nat, 2) + strs_bytes(params),
        OpCodeModel::Store(s) => code_bytes(0x50) + str_bytes(s),
        OpCodeModel::Load(s) => code_bytes(0x51) + str_bytes(s),
        OpCodeModel::Delete(s) => code_bytes(0x52) + str_bytes(s),
        OpCodeModel::MakeList(n) => code_bytes(0x60) + seq![n as u8],
        OpCodeModel::Register(s) => code_bytes(0x81) + str_bytes(s),
        OpCodeModel::Unregister(s) => code_bytes(0x83) + str_bytes(s),
        OpCodeModel::Whereis(s) => code_bytes(0x82) + str_bytes(s),
        OpCodeModel::SendNamed(s) => code_bytes(0x84) + str_bytes(s),
        OpCodeModel::Monitor(p) => code_bytes(0x85) + le_bytes(p as nat, 8),
        OpCodeModel::Link(p) => code_bytes(0x86) + le_bytes(p as nat, 8),
        OpCodeModel::Unlink(p) => code_bytes(0x87) + le_bytes(p as nat, 8),
        OpCodeModel::SuperviseChild(s) => code_bytes(0x89) + str_bytes(s),
        OpCodeModel::RestartChild(s) => code_bytes(0x8A) + str_bytes(s),
        OpCodeModel::Send(p) => code_bytes(0x8D) + le_bytes(p as nat, 8),
        _ => match unit_code_of(op) {
            Some(c) => code_bytes(c),
            None => Seq::empty(),
        },
    }
}

/// The bytes of a program: its instructions' bytes one after the other.
pub open spec fn encode_program(ops: Seq<OpCodeModel>) -> Seq<u8>
    decreases ops.len(),
{
    if ops.len() == 0 {
        Seq::empty()
    } else {
        encode_program(ops.drop_last()) + encode_op(ops.last())
    }
}

// ---------------------------------------------------------------------------
// Reading the assembly text

/// Why an assembly text cannot be compiled (the compiler aborts on it).
pub enum CompileFault {
    /// An instruction that needs an operand has none.
    MissingOperand(Seq<char>),
    /// A `PUSH_INT` operand that is no `i64`.
    InvalidInteger(Seq<char>),
    /// A `MAKELIST` operand that is no `u8`.
    InvalidListSize(Seq<char>),
    /// A process identifier that is no `u64`.
    InvalidPid(Seq<char>),
    /// A jump or call to a label that is not defined.
    UnknownLabel(Seq<char>),
    /// A mnemonic that the compiler does not know.
    UnknownOpcode(Seq<char>),
}

/// The error of [`compile`].
#[derive(Debug, PartialEq)]
pub enum CompileError {
    /// An instruction that needs an operand has none.
    MissingOperand(String),
    /// A `PUSH_INT` operand that is no `i64`.
    InvalidInteger(String),
    /// A `MAKELIST` operand that is no `u8`.
    InvalidListSize(String),
    /// A process identifier that is no `u64`.
    InvalidPid(String),
    /// A jump or call to a label that is not defined.
    UnknownLabel(String),
    /// A mnemonic that the compiler does not know.
    UnknownOpcode(String),
}

impl View for CompileError {
    type V = CompileFault;

    open spec fn view(&self) -> CompileFault {
        match self {
            CompileError::MissingOperand(s) => CompileFault::MissingOperand(s@),
            CompileError::InvalidInteger(s) => CompileFault::InvalidInteger(s@),
            CompileError::InvalidListSize(s) => CompileFault::InvalidListSize(s@),
            CompileError::InvalidPid(s) => CompileFault::InvalidPid(s@),
            CompileError::UnknownLabel(s) => CompileFault::UnknownLabel(s@),
            CompileError::UnknownOpcode(s) => CompileFault::UnknownOpcode(s@),
        }
    }
}

/// The labels (name and instruction index, later definitions winning) and
/// the instruction lines of a text.
pub struct SourceScan {
    pub labels: Seq<(Seq<char>, usize)>,
    pub lines: Seq<Seq<char>>,
}

/// The first pass over `ls`: each line is trimmed; blank lines and lines
/// starting with `;` are skipped; `LABEL name` names the index of the next
/// instruction; every other line is an instruction.
pub open spec fn scan_source(ls: Seq<Seq<char>>) -> SourceScan
    decreases ls.len(),
{
    if ls.len() == 0 {
        SourceScan { labels: Seq::empty(), lines: Seq::empty() }
    } else {
        let st = scan_source(ls.drop_last());
        let t = trim(ls.last());
        if t.len() == 0 || starts_with(t, seq![';']) {
            st
        } else if starts_with(t, "LABEL "@) {
            SourceScan { labels: st.labels.push((trim(t.skip(6)), st.lines.len() as usize)), lines: st.lines }
        } else {
            SourceScan { labels: st.labels, lines: st.lines.push(t) }
        }
    }
}

/// Mnemonics without operand, part 1.
pub open spec fn unit_op_a(m: Seq<char>) -> Option<OpCodeModel> {
    if m == "TRUE"@ {
        Some(OpCodeModel::True)
    } else if m == "FALSE"@ {
        Some(OpCodeModel::False)
    } else if m == "NULL"@ {
        Some(OpCodeModel::Null)
    } else if m == "ADD"@ {
        Some(OpCodeModel::Add)
    } else if m == "SUB"@ {
        Some(OpCodeModel::Sub)
    } else if m == "CONCAT"@ {
        Some(OpCodeModel::Concat)
    } else if m == "EQ"@ {
        Some(OpCodeModel::Eq)
    } else if m == "NE"@ {
        Some(OpCodeModel::Ne)
    } else if m == "GT"@ {
        Some(OpCodeModel::Gt)
    } else if m == "LT"@ {
        Some(OpCodeModel::Lt)
    } else if m == "GE"@ {
        Some(OpCodeModel::Ge)
    } else if m == "LE"@ {
        Some(OpCodeModel::Le)
    } else if m == "NOT"@ {
        Some(OpCodeModel::Not)
    } else if m == "AND"@ {
        Some(OpCodeModel::And)
    } else {
        None
    }
}

/// Mnemonics without operand, part 2.
pub open spec fn unit_op_b(m: Seq<char>) -> Option<OpCodeModel> {
    if m == "OR"@ {
        Some(OpCodeModel::Or)
    } else if m == "DUP"@ {
        Some(OpCodeModel::Dup)
    } else if m == "PRINT"@ {
        Some(OpCodeModel::Print)
    } else if m == "HALT"@ {
        Some(OpCodeModel::Halt)
    } else if m == "RET"@ {
        Some(OpCodeModel::Ret)
    } else if m == "LEN"@ {
        Some(OpCodeModel::Len)
    } else if m == "INDEX"@ {
        Some(OpCodeModel::Index)
    } else if m == "READ_FILE"@ {
        Some(OpCodeModel::ReadFile)
    } else if m == "WRITE_FILE"@ {
        Some(OpCodeModel::WriteFile)
    } else if m == "DUMPSCOPE"@ {
        Some(OpCodeModel::DumpScope)
    } else if m == "SPAWN"@ {
        Some(OpCodeModel::Spawn)
    } else if m == "START_SUPERVISOR"@ {
        Some(OpCodeModel::StartSupervisor)
    } else if m == "YIELD"@ {
        Some(OpCodeModel::Yield)
    } else if m == "RECEIVE"@ {
        Some(OpCodeModel::Receive)
    } else {
        None
    }
}

/// The instruction of a mnemonic without operand (any operand is ignored).
pub open spec fn unit_op(m: Seq<char>) -> Option<OpCodeModel> {
    match unit_op_a(m) {
        Some(o) => Some(o),
        None => unit_op_b(m),
    }
}

/// Mnemonics whose operand is a name or string, with its quotes trimmed.
pub open spec fn quoted_op(m: Seq<char>, s: Seq<char>) -> Option<OpCodeModel> {
    if m == "PUSH_STR"@ {
        Some(OpCodeModel::PushStr(s))
    } else if m == "STORE"@ {
        Some(OpCodeModel::Store(s))
    } else if m == "LOAD"@ {
        Some(OpCodeModel::Load(s))
    } else if m == "DELETE"@ {
        Some(OpCodeModel::Delete(s))
    } else if m == "REGISTER"@ {
        Some(OpCodeModel::Register(s))
    } else if m == "UNREGISTER"@ {
        Some(OpCodeModel::Unregister(s))
    } else if m == "WHEREIS"@ {
        Some(OpCodeModel::Whereis(s))
    } else if m == "SEND_NAMED"@ {
        Some(OpCodeModel::SendNamed(s))
    } else if m == "SUPERVISE_CHILD"@ {
        Some(OpCodeModel::SuperviseChild(s))
    } else if m == "RESTART_CHILD"@ {
        Some(OpCodeModel::RestartChild(s))
    } else {
        None
    }
}

/// Mnemonics whose operand is a process identifier.
pub open spec fn pid_op(m: Seq<char>, p: u64) -> Option<OpCodeModel> {
    if m == "MONITOR"@ {
        Some(OpCodeModel::Monitor(p))
    } else if m == "LINK"@ {
        Some(OpCodeModel::Link(p))
    } else if m == "UNLINK"@ {
        Some(OpCodeModel::Unlink(p))
    } else if m == "SEND"@ {
        Some(OpCodeModel::Send(p))
    } else {
        None
    }
}

/// The instruction of mnemonic `m` with the (trimmed) operand `a`, for the
/// mnemonics that need one.
pub open spec fn operand_op(labels: Seq<(Seq<char>, usize)>, m: Seq<char>, a: Seq<char>) -> Result<
    OpCodeModel,
    CompileFault,
> {
    if quoted_op(m, Seq::empty()) is Some {
        Ok(quoted_op(m, trim_char(a, '"'))->Some_0)
    } else if m == "PUSH_INT"@ {
        match parse_i64(a) {
            Some(n) => Ok(OpCodeModel::PushInt(n)),
            None => Err(CompileFault::InvalidInteger(a)),
        }
    } else if m == "JMP"@ || m == "JZ"@ {
        match lookup_label(labels, a) {
            Some(addr) => Ok(
                if m == "JMP"@ {
                    OpCodeModel::Jmp(addr)
                } else {
                    OpCodeModel::Jz(addr)
                },
            ),
            None => Err(CompileFault::UnknownLabel(a)),
        }
    } else if m == "CALL"@ {
        let ws = words(a);
        if ws.len() == 0 {
            Err(CompileFault::MissingOperand(m))
        } else {
            match lookup_label(labels, ws[0]) {
                Some(addr) => Ok(OpCodeModel::Call { addr, params: ws.skip(1) }),
                None => Err(CompileFault::UnknownLabel(ws[0])),
            }
        }
    } else if m == "MAKELIST"@ {
        match parse_u8(a) {
            Some(n) => Ok(OpCodeModel::MakeList(n as usize)),
            None => Err(CompileFault::InvalidListSize(a)),
        }
    } else if pid_op(m, 0) is Some {
        match parse_u64(a) {
            Some(p) => Ok(pid_op(m, p)->Some_0),
            None => Err(CompileFault::InvalidPid(a)),
        }
    } else {
        Err(CompileFault::UnknownOpcode(m))
    }
}

/// Whether mnemonic `m` is one that takes an operand.
pub open spec fn takes_operand(m: Seq<char>) -> bool {
    ||| quoted_op(m, Seq::empty()) is Some
    ||| m == "PUSH_INT"@
    ||| m == "CALL"@
    ||| m == "MAKELIST"@
    ||| pid_op(m, 0) is Some
}

/// The instruction of the instruction line `t`: its mnemonic is the text
/// before the first space, its operand the rest, trimmed.
pub open spec fn line_op(labels: Seq<(Seq<char>, usize)>, t: Seq<char>) -> Result<OpCodeModel, CompileFault> {
    let m = mnemonic(t);
    match unit_op(m) {
        Some(o) => Ok(o),
        None => if has_operand(t) {
            operand_op(labels, m, trim(operand(t)))
        } else if m == "JMP"@ || m == "JZ"@ {
            Err(CompileFault::UnknownLabel(Seq::empty()))
        } else if takes_operand(m) {
            Err(CompileFault::MissingOperand(m))
        } else {
            Err(CompileFault::UnknownOpcode(m))
        },
    }
}

/// The instructions of the lines `ls`; the first faulty line decides the
/// error.
pub open spec fn lines_ops(labels: Seq<(Seq<char>, usize)>, ls: Seq<Seq<char>>) -> Result<
    Seq<OpCodeModel>,
    CompileFault,
>
    decreases ls.len(),
{
    if ls.len() == 0 {
        Ok(Seq::empty())
    } else {
        match lines_ops(labels, ls.drop_last()) {
            Err(e) => Err(e),
            Ok(ops) => match line_op(labels, ls.last()) {
                Err(e) => Err(e),
                Ok(o) => Ok(ops.push(o)),
            },
        }
    }
}

/// The program that an assembly text denotes to the compiler.
pub open spec fn compiled_program(source: Seq<char>) -> Result<Seq<OpCodeModel>, CompileFault> {
    let sc = scan_source(lines(source));
    lines_ops(sc.labels, sc.lines)
}

/// The bytecode that the compiler writes for an assembly text.
pub open spec fn compile_spec(source: Seq<char>) -> Result<Seq<u8>, CompileFault> {
    match compiled_program(source) {
        Ok(ops) => Ok(encode_program(ops)),
        Err(e) => Err(e),
    }
}


// ---------------------------------------------------------------------------
// Writing bytes

/// Appends the `k` low bytes of `v`, least significant first.
fn push_le(out: &mut Vec<u8>, v: u64, k: usize)
    requires
        k <= 8,
    ensures
        final(out)@ == old(out)@ + le_bytes(v as nat, k as nat),
    decreases k,
{
    if k > 0 {
        let ghost o0 = out@;
        out.push((v % 256) as u8);
        push_le(out, v / 256, k - 1);
        assert(out@ =~= o0 + le_bytes(v as nat, k as nat));
    } else {
        assert(out@ =~= old(out)@ + le_bytes(v as nat, k as nat));
    }
}

/// Appends a string operand: its UTF-8 length as 16 bits, then its bytes.
fn push_str(out: &mut Vec<u8>, s: &str)
    ensures
        final(out)@ == old(out)@ + str_bytes(s@),
{
    let bytes = s.as_bytes();
    let n = bytes.len();
    let ghost o0 = out@;
    push_le(out, (n as u16) as u64, 2);
    let ghost o1 = out@;
    let mut i: usize = 0;
    while i < n
        invariant
            i <= n,
            n == bytes@.len(),
            out@ == o1 + bytes@.take(i as int),
        decreases n - i,
    {
        out.push(bytes[i]);
        assert(bytes@.take(i + 1) =~= bytes@.take(i as int).push(bytes@[i as int]));
        i = i + 1;
    }
    assert(bytes@.take(n as int) =~= bytes@);
    assert(out@ =~= o0 + str_bytes(s@));
}

/// Appends the string operands `ss[from..]`.
fn push_strs(out: &mut Vec<u8>, ss: &Vec<String>, from: usize)
    requires
        from <= ss@.len(),
    ensures
        final(out)@ == old(out)@ + strs_bytes(strings_model(ss@).skip(from as int)),
    decreases ss@.len() - from,
{
    let ghost m = strings_model(ss@);
    if from < ss.len() {
        let ghost o0 = out@;
        push_str(out, ss[from].as_str());
        push_strs(out, ss, from + 1);
        assert(m.skip(from as int).drop_first() =~= m.skip(from + 1));
        assert(m.skip(from as int)[0] == ss@[from as int]@);
        assert(out@ =~= o0 + strs_bytes(m.skip(from as int)));
    } else {
        assert(m.skip(from as int) =~= Seq::<Seq<char>>::empty());
        assert(out@ =~= old(out)@ + strs_bytes(m.skip(from as int)));
    }
}

/// The code of an instruction without operands.
fn code_of_unit(op: &OpCode) -> (r: Option<u64>)
    ensures
        match unit_code_of(opcode_model(*op)) {
            Some(c) => r == Some(c as u64),
            None => r is None,
        },
{
    match op {
        OpCode::True => Some(0x03),
        OpCode::False => Some(0x04),
        OpCode::Null => Some(0x05),
        OpCode::Not => Some(0x06),
        OpCode::And => Some(0x07),
        OpCode::Or => Some(0x08),
        OpCode::Dup => Some(0x09),
        OpCode::Add => Some(0x10),
        OpCode::Sub => Some(0x11),
        OpCode::Concat => Some(0x12),
        OpCode::Eq => Some(0x20),
        OpCode::Gt => Some(0x21),
        OpCode::Lt => Some(0x22),
        OpCode::Ne => Some(0x23),
        OpCode::Ge => Some(0x24),
        OpCode::Le => Some(0x25),
        OpCode::Ret => Some(0x33),
        OpCode::Print => Some(0x40),
        OpCode::Len => Some(0x61),
        OpCode::Index => Some(0x62),
        OpCode::DumpScope => Some(0x70),
        OpCode::ReadFile => Some(0x72),
        OpCode::WriteFile => Some(0x73),
        OpCode::Spawn => Some(0x80),
        OpCode::StartSupervisor => Some(0x88),
        OpCode::Yield => Some(0x8B),
        OpCode::Receive => Some(0x8C),
        OpCode::Halt => Some(0xFF),
        _ => None,
    }
}

/// Appends a code and a string operand.
fn push_code_str(out: &mut Vec<u8>, c: u64, s: &str)
    requires
        c < 0x10000,
    ensures
        final(out)@ == old(out)@ + (code_bytes(c as int) + str_bytes(s@)),
{
    let ghost o0 = out@;
    push_le(out, c, 2);
    push_str(out, s);
    assert(out@ =~= o0 + (code_bytes(c as int) + str_bytes(s@)));
}

/// Appends a code and a 64-bit operand.
fn push_code_u64(out: &mut Vec<u8>, c: u64, v: u64)
    requires
        c < 0x10000,
    ensures
        final(out)@ == old(out)@ + (code_bytes(c as int) + le_bytes(v as nat, 8)),
{
    let ghost o0 = out@;
    push_le(out, c, 2);
    push_le(out, v, 8);
    assert(out@ =~= o0 + (code_bytes(c as int) + le_bytes(v as nat, 8)));
}

/// Appends the bytes of one instruction (nothing for an instruction that the
/// binary format cannot hold).
#[verifier::spinoff_prover]
#[verifier::rlimit(60)]
pub fn encode_instruction(out: &mut Vec<u8>, op: &OpCode)
    ensures
        final(out)@ == old(out)@ + encode_op(opcode_model(*op)),
{
    match op {
        OpCode::PushInt(n) => push_code_u64(out, 0x01, *n as u64),
        OpCode::PushStr(s) => push_code_str(out, 0x02, s.as_str()),
        OpCode::Jmp(a) => {
            let ghost o0 = out@;
            push_le(out, 0x30, 2);
            push_le(out, (*a as u16) as u64, 2);
            assert(out@ =~= o0 + encode_op(opcode_model(*op)));
        },
        OpCode::Jz(a) => {
            let ghost o0 = out@;
            push_le(out, 0x31, 2);
            push_le(out, (*a as u16) as u64, 2);
            assert(out@ =~= o0 + encode_op(opcode_model(*op)));
        },
        OpCode::Call { addr, params } => {
            let ghost o0 = out@;
            push_le(out, 0x32, 2);
            push_le(out, (*addr as u16) as u64, 2);
            push_le(out, (params.len() as u16) as u64, 2);
            push_strs(out, params, 0);
            assert(strings_model(params@).skip(0) =~= strings_model(params@));
            assert(out@ =~= o0 + encode_op(opcode_model(*op)));
        },
        OpCode::Store(s) => push_code_str(out, 0x50, s.as_str()),
        OpCode::Load(s) => push_code_str(out, 0x51, s.as_str()),
        OpCode::Delete(s) => push_code_str(out, 0x52, s.as_str()),
        OpCode::MakeList(n) => {
            let ghost o0 = out@;
            push_le(out, 0x60, 2);
            out.push(*n as u8);
            assert(out@ =~= o0 + encode_op(opcode_model(*op)));
        },
        OpCode::Register(s) => push_code_str(out, 0x81, s.as_str()),
        OpCode::Unregister(s) => push_code_str(out, 0x83, s.as_str()),
        OpCode::Whereis(s) => push_code_str(out, 0x82, s.as_str()),
        OpCode::SendNamed(s) => push_code_str(out, 0x84, s.as_str()),
        OpCode::Monitor(p) => push_code_u64(out, 0x85, *p),
        OpCode::Link(p) => push_code_u64(out, 0x86, *p),
        OpCode::Unlink(p) => push_code_u64(out, 0x87, *p),
        OpCode::SuperviseChild(s) => push_code_str(out, 0x89, s.as_str()),
        OpCode::RestartChild(s) => push_code_str(out, 0x8A, s.as_str()),
        OpCode::Send(p) => push_code_u64(out, 0x8D, *p),
        _ => match code_of_unit(op) {
            Some(c) => push_le(out, c, 2),
            None => {
                assert(out@ =~= old(out)@ + encode_op(opcode_model(*op)));
            },
        },
    }
}


// ---------------------------------------------------------------------------
// Reading lines

/// The first pass over a text: the label table and the instruction lines.
pub fn scan_lines(content: &[char]) -> (r: (Vec<(Vec<char>, usize)>, Vec<Vec<char>>))
    ensures
        labels_model(r.0@) == scan_source(lines(content@)).labels,
        char_seqs(r.1@) == scan_source(lines(content@)).lines,
{
    let ls = split_lines(content);
    let ghost lm = char_seqs(ls@);
    let mut labels: Vec<(Vec<char>, usize)> = Vec::new();
    let mut instrs: Vec<Vec<char>> = Vec::new();
    let mut i: usize = 0;
    proof {
        reveal_strlit("LABEL ");
        assert(lm.take(0) =~= Seq::<Seq<char>>::empty());
        assert(labels_model(labels@) =~= Seq::<(Seq<char>, usize)>::empty());
        assert(char_seqs(instrs@) =~= Seq::<Seq<char>>::empty());
    }
    while i < ls.len()
        invariant
            i <= ls@.len(),
            lm == char_seqs(ls@),
            lm == lines(content@),
            "LABEL "@.len() == 6,
            labels_model(labels@) == scan_source(lm.take(i as int)).labels,
            char_seqs(instrs@) == scan_source(lm.take(i as int)).lines,
        decreases ls.len() - i,
    {
        assert(lm.take(i + 1).drop_last() =~= lm.take(i as int));
        assert(lm.take(i + 1).last() == ls@[i as int]@);
        let t = trim_chars(ls[i].as_slice());
        if t.len() == 0 || t[0] == ';' {
            assert(starts_with(t@, seq![';']) == (t@.len() > 0 && t@[0] == ';')) by {
                if t@.len() > 0 {
                    assert(t@.take(1) =~= seq![t@[0]]);
                }
            }
        } else if chars_start_with(t.as_slice(), "LABEL ") {
            assert(!starts_with(t@, seq![';'])) by {
                assert(t@.take(1)[0] == t@[0]);
            }
            let rest = sub_chars(t.as_slice(), 6, t.len());
            assert(rest@ =~= t@.skip(6));
            let name = trim_chars(rest.as_slice());
            let ghost before = labels_model(labels@);
            labels.push((name, instrs.len()));
            assert(labels_model(labels@) =~= before.push((trim(t@.skip(6)), char_seqs(instrs@).len() as usize)));
        } else {
            assert(!starts_with(t@, seq![';'])) by {
                assert(t@.take(1)[0] == t@[0]);
            }
            let ghost before = char_seqs(instrs@);
            instrs.push(t);
            assert(char_seqs(instrs@) =~= before.push(t@));
        }
        i = i + 1;
    }
    assert(lm.take(ls@.len() as int) =~= lm);
    (labels, instrs)
}

fn unit_op_a_exec(m: &[char]) -> (r: Option<OpCode>)
    ensures
        match unit_op_a(m@) {
            Some(o) => r is Some && opcode_model(r->Some_0) == o,
            None => r is None,
        },
{
    if is_lit(m, "TRUE") {
        Some(OpCode::True)
    } else if is_lit(m, "FALSE") {
        Some(OpCode::False)
    } else if is_lit(m, "NULL") {
        Some(OpCode::Null)
    } else if is_lit(m, "ADD") {
        Some(OpCode::Add)
    } else if is_lit(m, "SUB") {
        Some(OpCode::Sub)
    } else if is_lit(m, "CONCAT") {
        Some(OpCode::Concat)
    } else if is_lit(m, "EQ") {
        Some(OpCode::Eq)
    } else if is_lit(m, "NE") {
        Some(OpCode::Ne)
    } else if is_lit(m, "GT") {
        Some(OpCode::Gt)
    } else if is_lit(m, "LT") {
        Some(OpCode::Lt)
    } else if is_lit(m, "GE") {
        Some(OpCode::Ge)
    } else if is_lit(m, "LE") {
        Some(OpCode::Le)
    } else if is_lit(m, "NOT") {
        Some(OpCode::Not)
    } else if is_lit(m, "AND") {
        Some(OpCode::And)
    } else {
        None
    }
}

fn unit_op_b_exec(m: &[char]) -> (r: Option<OpCode>)
    ensures
        match unit_op_b(m@) {
            Some(o) => r is Some && opcode_model(r->Some_0) == o,
            None => r is None,
        },
{
    if is_lit(m, "OR") {
        Some(OpCode::Or)
    } else if is_lit(m, "DUP") {
        Some(OpCode::Dup)
    } else if is_lit(m, "PRINT") {
        Some(OpCode::Print)
    } else if is_lit(m, "HALT") {
        Some(OpCode::Halt)
    } else if is_lit(m, "RET") {
        Some(OpCode::Ret)
    } else if is_lit(m, "LEN") {
        Some(OpCode::Len)
    } else if is_lit(m, "INDEX") {
        Some(OpCode::Index)
    } else if is_lit(m, "READ_FILE") {
        Some(OpCode::ReadFile)
    } else if is_lit(m, "WRITE_FILE") {
        Some(OpCode::WriteFile)
    } else if is_lit(m, "DUMPSCOPE") {
        Some(OpCode::DumpScope)
    } else if is_lit(m, "SPAWN") {
        Some(OpCode::Spawn)
    } else if is_lit(m, "START_SUPERVISOR") {
        Some(OpCode::StartSupervisor)
    } else if is_lit(m, "YIELD") {
        Some(OpCode::Yield)
    } else if is_lit(m, "RECEIVE") {
        Some(OpCode::Receive)
    } else {
        None
    }
}

fn quoted_op_exec(m: &[char], s: String) -> (r: Option<OpCode>)
    ensures
        match quoted_op(m@, s@) {
            Some(o) => r is Some && opcode_model(r->Some_0) == o,
            None => r is None,
        },
{
    if is_lit(m, "PUSH_STR") {
        Some(OpCode::PushStr(s))
    } else if is_lit(m, "STORE") {
        Some(OpCode::Store(s))
    } else if is_lit(m, "LOAD") {
        Some(OpCode::Load(s))
    } else if is_lit(m, "DELETE") {
        Some(OpCode::Delete(s))
    } else if is_lit(m, "REGISTER") {
        Some(OpCode::Register(s))
    } else if is_lit(m, "UNREGISTER") {
        Some(OpCode::Unregister(s))
    } else if is_lit(m, "WHEREIS") {
        Some(OpCode::Whereis(s))
    } else if is_lit(m, "SEND_NAMED") {
        Some(OpCode::SendNamed(s))
    } else if is_lit(m, "SUPERVISE_CHILD") {
        Some(OpCode::SuperviseChild(s))
    } else if is_lit(m, "RESTART_CHILD") {
        Some(OpCode::RestartChild(s))
    } else {
        None
    }
}

fn pid_op_exec(m: &[char], p: u64) -> (r: Option<OpCode>)
    ensures
        match pid_op(m@, p) {
            Some(o) => r is Some && opcode_model(r->Some_0) == o,
            None => r is None,
        },
{
    if is_lit(m, "MONITOR") {
        Some(OpCode::Monitor(p))
    } else if is_lit(m, "LINK") {
        Some(OpCode::Link(p))
    } else if is_lit(m, "UNLINK") {
        Some(OpCode::Unlink(p))
    } else if is_lit(m, "SEND") {
        Some(OpCode::Send(p))
    } else {
        None
    }
}

/// The instruction of mnemonic `m` with operand `a`, for the mnemonics
/// that need one.
fn operand_op_exec(labels: &Vec<(Vec<char>, usize)>, m: &[char], a: &[char]) -> (r: Result<OpCode, CompileError>)
    ensures
        match operand_op(labels_model(labels@), m@, a@) {
            Ok(o) => r is Ok && opcode_model(r->Ok_0) == o,
            Err(f) => r is Err && r->Err_0@ == f,
        },
{
    let q = trim_char_exec(a, '"');
    match quoted_op_exec(m, string_of(q.as_slice())) {
        Some(o) => {
            return Ok(o);
        },
        None => {},
    }
    if is_lit(m, "PUSH_INT") {
        match parse_i64_chars(a) {
            Some(n) => Ok(OpCode::PushInt(n)),
            None => Err(CompileError::InvalidInteger(string_of(a))),
        }
    } else if is_lit(m, "JMP") || is_lit(m, "JZ") {
        match find_label(labels, a) {
            Some(addr) => Ok(
                if is_lit(m, "JMP") {
                    OpCode::Jmp(addr)
                } else {
                    OpCode::Jz(addr)
                },
            ),
            None => Err(CompileError::UnknownLabel(string_of(a))),
        }
    } else if is_lit(m, "CALL") {
        let ws = split_words(a);
        if ws.len() == 0 {
            Err(CompileError::MissingOperand(string_of(m)))
        } else {
            assert(char_seqs(ws@)[0] == ws@[0]@);
            match find_label(labels, ws[0].as_slice()) {
                Some(addr) => {
                    let params = strings_of(&ws, 1);
                    Ok(OpCode::Call { addr, params })
                },
                None => Err(CompileError::UnknownLabel(string_of(ws[0].as_slice()))),
            }
        }
    } else if is_lit(m, "MAKELIST") {
        match parse_u8_chars(a) {
            Some(n) => Ok(OpCode::MakeList(n as usize)),
            None => Err(CompileError::InvalidListSize(string_of(a))),
        }
    } else if pid_op_exec(m, 0).is_some() {
        match parse_u64_chars(a) {
            Some(p) => match pid_op_exec(m, p) {
                Some(o) => Ok(o),
                None => Err(CompileError::UnknownOpcode(string_of(m))),
            },
            None => Err(CompileError::InvalidPid(string_of(a))),
        }
    } else {
        Err(CompileError::UnknownOpcode(string_of(m)))
    }
}

/// The instruction of one instruction line.
pub fn line_instruction(labels: &Vec<(Vec<char>, usize)>, t: &[char]) -> (r: Result<OpCode, CompileError>)
    ensures
        match line_op(labels_model(labels@), t@) {
            Ok(o) => r is Ok && opcode_model(r->Ok_0) == o,
            Err(f) => r is Err && r->Err_0@ == f,
        },
{
    let k = find_char(t, ' ');
    let m = sub_chars(t, 0, k);
    assert(m@ == mnemonic(t@));
    match unit_op_a_exec(m.as_slice()) {
        Some(o) => {
            return Ok(o);
        },
        None => {},
    }
    match unit_op_b_exec(m.as_slice()) {
        Some(o) => {
            return Ok(o);
        },
        None => {},
    }
    if k < t.len() {
        let rest = sub_chars(t, k + 1, t.len());
        assert(rest@ =~= operand(t@));
        let a = trim_chars(rest.as_slice());
        operand_op_exec(labels, m.as_slice(), a.as_slice())
    } else if is_lit(m.as_slice(), "JMP") || is_lit(m.as_slice(), "JZ") {
        let empty: Vec<char> = Vec::new();
        Err(CompileError::UnknownLabel(string_of(empty.as_slice())))
    } else {
        let wants = quoted_op_exec(m.as_slice(), string_of(m.as_slice())).is_some() || is_lit(m.as_slice(), "PUSH_INT")
            || is_lit(m.as_slice(), "CALL") || is_lit(m.as_slice(), "MAKELIST") || pid_op_exec(m.as_slice(), 0).is_some();
        proof {
            assert(quoted_op(m@, m@) is Some <==> quoted_op(m@, Seq::empty()) is Some);
        }
        if wants {
            Err(CompileError::MissingOperand(string_of(m.as_slice())))
        } else {
            Err(CompileError::UnknownOpcode(string_of(m.as_slice())))
        }
    }
}


proof fn lemma_lines_ops_error(labels: Seq<(Seq<char>, usize)>, ls: Seq<Seq<char>>, i: int, j: int)
    requires
        0 <= i <= j <= ls.len(),
        lines_ops(labels, ls.take(i)) is Err,
    ensures
        lines_ops(labels, ls.take(j)) == lines_ops(labels, ls.take(i)),
    decreases j - i,
{
    if i < j {
        lemma_lines_ops_error(labels, ls, i, j - 1);
        assert(ls.take(j).drop_last() =~= ls.take(j - 1));
    }
}

/// Compiles an assembly text into bytecode.
pub fn compile(source: &str) -> (r: Result<Vec<u8>, CompileError>)
    ensures
        match compile_spec(source@) {
            Ok(b) => r is Ok && r->Ok_0@ == b,
            Err(f) => r is Err && r->Err_0@ == f,
        },
{
    let content = chars_of(source);
    let (labels, instrs) = scan_lines(content.as_slice());
    let ghost lab = labels_model(labels@);
    let ghost ls = char_seqs(instrs@);
    let mut out: Vec<u8> = Vec::new();
    let ghost mut ops: Seq<OpCodeModel> = Seq::empty();
    let mut i: usize = 0;
    assert(ls.take(0) =~= Seq::<Seq<char>>::empty());
    while i < instrs.len()
        invariant
            i <= instrs@.len(),
            lab == labels_model(labels@),
            ls == char_seqs(instrs@),
            lab == scan_source(lines(content@)).labels,
            ls == scan_source(lines(content@)).lines,
            content@ == source@,
            lines_ops(lab, ls.take(i as int)) == Ok::<Seq<OpCodeModel>, CompileFault>(ops),
            out@ == encode_program(ops),
        decreases instrs.len() - i,
    {
        assert(ls.take(i + 1).drop_last() =~= ls.take(i as int));
        assert(ls.take(i + 1).last() == instrs@[i as int]@);
        match line_instruction(&labels, instrs[i].as_slice()) {
            Ok(op) => {
                encode_instruction(&mut out, &op);
                proof {
                    let o = opcode_model(op);
                    assert(ops.push(o).drop_last() =~= ops);
                    ops = ops.push(o);
                }
            },
            Err(e) => {
                proof {
                    lemma_lines_ops_error(lab, ls, i + 1, ls.len() as int);
                    assert(ls.take(ls.len() as int) =~= ls);
                }
                return Err(e);
            },
        }
        i = i + 1;
    }
    assert(ls.take(ls.len() as int) =~= ls);
    Ok(out)
}


// ---------------------------------------------------------------------------
// Reading compiled bytecode back

/// Whether the binary format holds `op` exactly: it is one of the
/// instructions the format has a code for, and its addresses, counts and
/// string lengths fit the widths the format gives them.
pub open spec fn encodable(op: OpCodeModel) -> bool {
    match op {
        OpCodeModel::PushInt(_) => true,
        OpCodeModel::Monitor(_) => true,
        OpCodeModel::Link(_) => true,
        OpCodeModel::Unlink(_) => true,
        OpCodeModel::Send(_) => true,
        OpCodeModel::PushStr(s) => encode_utf8(s).len() < 0x10000,
        OpCodeModel::Store(s) => encode_utf8(s).len() < 0x10000,
        OpCodeModel::Load(s) => encode_utf8(s).len() < 0x10000,
        OpCodeModel::Delete(s) => encode_utf8(s).len() < 0x10000,
        OpCodeModel::Register(s) => encode_utf8(s).len() < 0x10000,
        OpCodeModel::Unregister(s) => encode_utf8(s).len() < 0x10000,
        OpCodeModel::Whereis(s) => encode_utf8(s).len() < 0x10000,
        OpCodeModel::SendNamed(s) => encode_utf8(s).len() < 0x10000,
        OpCodeModel::SuperviseChild(s) => encode_utf8(s).len() < 0x10000,
        OpCodeModel::RestartChild(s) => encode_utf8(s).len() < 0x10000,
        OpCodeModel::Jmp(a) => a < 0x10000,
        OpCodeModel::Jz(a) => a < 0x10000,
        OpCodeModel::Call { addr, params } => addr < 0x10000 && params.len() < 0x10000 && forall|i: int|
            0 <= i < params.len() ==> encode_utf8(#[trigger] params[i]).len() < 0x10000,
        OpCodeModel::MakeList(n) => n < 256,
        _ => unit_code_of(op) is Some,
    }
}

proof fn lemma_pow256_small()
    ensures
        pow256(1) == 256,
        pow256(2) == 0x10000,
        pow256(8) == 0x1_0000_0000_0000_0000,
{
    reveal_with_fuel(pow256, 9);
}

/// The bytes `le_bytes(v, k)` read back give `v`.
proof fn lemma_le_roundtrip(b: Seq<u8>, p: int, v: nat, k: nat)
    requires
        0 <= p,
        p + k <= b.len(),
        b.subrange(p, p + k) == le_bytes(v, k),
        v < pow256(k),
    ensures
        le_value(b, p, k) == v,
    decreases k,
{
    if k > 0 {
        let q = pow256((k - 1) as nat);
        assert(v / 256 < q && v == (v % 256) + 256 * (v / 256)) by (nonlinear_arith)
            requires
                v < 256 * q,
        ;
        assert(b.subrange(p + 1, p + k) =~= b.subrange(p, p + k).subrange(1, k as int));
        lemma_le_bytes_len(v / 256, (k - 1) as nat);
        assert(le_bytes(v, k).subrange(1, k as int) =~= le_bytes(v / 256, (k - 1) as nat));
        assert(b[p] == b.subrange(p, p + k)[0]);
        lemma_le_roundtrip(b, p + 1, v / 256, (k - 1) as nat);
    }
}

/// A part of a subrange.
proof fn lemma_split(b: Seq<u8>, p: int, x: Seq<u8>, y: Seq<u8>)
    requires
        0 <= p,
        p + x.len() + y.len() <= b.len(),
        b.subrange(p, p + x.len() + y.len()) == x + y,
    ensures
        b.subrange(p, p + x.len()) == x,
        b.subrange(p + x.len(), p + x.len() + y.len()) == y,
{
    assert(b.subrange(p, p + x.len()) =~= (x + y).subrange(0, x.len() as int));
    assert((x + y).subrange(0, x.len() as int) =~= x);
    assert(b.subrange(p + x.len(), p + x.len() + y.len()) =~= (x + y).subrange(
        x.len() as int,
        (x.len() + y.len()) as int,
    ));
    assert((x + y).subrange(x.len() as int, (x.len() + y.len()) as int) =~= y);
}

proof fn lemma_le_bytes_len(v: nat, k: nat)
    ensures
        le_bytes(v, k).len() == k,
    decreases k,
{
    if k > 0 {
        lemma_le_bytes_len(v / 256, (k - 1) as nat);
    }
}

/// A string operand read back.
proof fn lemma_str_roundtrip(b: Seq<u8>, p: int, s: Seq<char>)
    requires
        0 <= p,
        p + str_bytes(s).len() <= b.len(),
        b.subrange(p, p + str_bytes(s).len()) == str_bytes(s),
        encode_utf8(s).len() < 0x10000,
    ensures
        read_str(b, p) == Ok::<(Seq<char>, int), crate::bytecode::DecodeError>((s, p + str_bytes(s).len())),
{
    let e = encode_utf8(s);
    let n = e.len();
    lemma_le_bytes_len((n as u16) as nat, 2);
    lemma_split(b, p, le_bytes((n as u16) as nat, 2), e);
    lemma_pow256_small();
    lemma_le_roundtrip(b, p, n, 2);
    encode_utf8_valid_utf8(s);
    encode_utf8_decode_utf8(s);
}

/// Several string operands read back.
proof fn lemma_strs_roundtrip(b: Seq<u8>, p: int, ss: Seq<Seq<char>>)
    requires
        0 <= p,
        p + strs_bytes(ss).len() <= b.len(),
        b.subrange(p, p + strs_bytes(ss).len()) == strs_bytes(ss),
        forall|i: int| 0 <= i < ss.len() ==> encode_utf8(#[trigger] ss[i]).len() < 0x10000,
    ensures
        read_strs(b, p, ss.len()) == Ok::<(Seq<Seq<char>>, int), crate::bytecode::DecodeError>(
            (ss, p + strs_bytes(ss).len()),
        ),
    decreases ss.len(),
{
    if ss.len() > 0 {
        let x = str_bytes(ss[0]);
        let y = strs_bytes(ss.drop_first());
        lemma_split(b, p, x, y);
        lemma_str_roundtrip(b, p, ss[0]);
        assert forall|i: int| 0 <= i < ss.drop_first().len() implies encode_utf8(
            #[trigger] ss.drop_first()[i],
        ).len() < 0x10000 by {
            assert(ss.drop_first()[i] == ss[i + 1]);
        }
        lemma_strs_roundtrip(b, p + x.len(), ss.drop_first());
        assert(seq![ss[0]] + ss.drop_first() =~= ss);
    } else {
        assert(ss =~= Seq::<Seq<char>>::empty());
    }
}


/// The code at the head of an instruction's bytes.
proof fn lemma_code(b: Seq<u8>, p: int, c: int, rest: Seq<u8>)
    requires
        0 <= c < 0x10000,
        0 <= p,
        p + 2 + rest.len() <= b.len(),
        b.subrange(p, p + 2 + rest.len()) == code_bytes(c) + rest,
    ensures
        le_value(b, p, 2) == c,
        b.subrange(p + 2, p + 2 + rest.len()) == rest,
{
    lemma_le_bytes_len(c as nat, 2);
    lemma_split(b, p, code_bytes(c), rest);
    lemma_pow256_small();
    lemma_le_roundtrip(b, p, c as nat, 2);
}

/// An instruction with a string operand read back.
proof fn lemma_str_op_roundtrip(b: Seq<u8>, p: int, c: int, s: Seq<char>)
    requires
        string_code(c, s) is Some,
        0 <= c < 0x10000,
        encode_utf8(s).len() < 0x10000,
        0 <= p,
        p + (code_bytes(c) + str_bytes(s)).len() <= b.len(),
        b.subrange(p, p + (code_bytes(c) + str_bytes(s)).len()) == code_bytes(c) + str_bytes(s),
    ensures
        decode_one(b, le_value(b, p, 2) as int, p + 2) == Ok::<(OpCodeModel, int), crate::bytecode::DecodeError>(
            (string_code(c, s)->Some_0, p + (code_bytes(c) + str_bytes(s)).len()),
        ),
{
    lemma_le_bytes_len(c as nat, 2);
    lemma_code(b, p, c, str_bytes(s));
    lemma_str_roundtrip(b, p + 2, s);
}

/// An instruction with a 64-bit operand read back.
proof fn lemma_u64_roundtrip(b: Seq<u8>, p: int, c: int, v: u64)
    requires
        0 <= c < 0x10000,
        0 <= p,
        p + 10 <= b.len(),
        b.subrange(p, p + 10) == code_bytes(c) + le_bytes(v as nat, 8),
    ensures
        le_value(b, p, 2) == c,
        le_value(b, p + 2, 8) == v,
{
    lemma_le_bytes_len(v as nat, 8);
    lemma_code(b, p, c, le_bytes(v as nat, 8));
    lemma_pow256_small();
    lemma_le_roundtrip(b, p + 2, v as nat, 8);
}

/// The code of an instruction without operands decodes to it.
proof fn lemma_unit_roundtrip(op: OpCodeModel)
    requires
        unit_code_of(op) is Some,
    ensures
        unit_code(unit_code_of(op)->Some_0) == Some(op),
        string_code(unit_code_of(op)->Some_0, Seq::empty()) is None,
        pid_code(unit_code_of(op)->Some_0, 0) is None,
        0 <= unit_code_of(op)->Some_0 < 0x10000,
        unit_code_of(op)->Some_0 != 0x01 && unit_code_of(op)->Some_0 != 0x30 && unit_code_of(op)->Some_0 != 0x31
            && unit_code_of(op)->Some_0 != 0x32 && unit_code_of(op)->Some_0 != 0x60,
{
}

/// One instruction read back from its bytes.
#[verifier::spinoff_prover]
#[verifier::rlimit(60)]
proof fn lemma_op_roundtrip(b: Seq<u8>, p: int, op: OpCodeModel)
    requires
        encodable(op),
        0 <= p,
        p + encode_op(op).len() <= b.len(),
        b.subrange(p, p + encode_op(op).len()) == encode_op(op),
    ensures
        encode_op(op).len() >= 2,
        decode_one(b, le_value(b, p, 2) as int, p + 2) == Ok::<(OpCodeModel, int), crate::bytecode::DecodeError>(
            (op, p + encode_op(op).len()),
        ),
{
    lemma_pow256_small();
    match op {
        OpCodeModel::PushInt(n) => {
            lemma_le_bytes_len((n as u64) as nat, 8);
            lemma_le_bytes_len(0x01, 2);
            lemma_u64_roundtrip(b, p, 0x01, n as u64);
            assert(((n as u64) as nat) as i64 == n) by (bit_vector);
        },
        OpCodeModel::Monitor(v) => {
            lemma_le_bytes_len(v as nat, 8);
            lemma_le_bytes_len(0x85, 2);
            lemma_u64_roundtrip(b, p, 0x85, v);
        },
        OpCodeModel::Link(v) => {
            lemma_le_bytes_len(v as nat, 8);
            lemma_le_bytes_len(0x86, 2);
            lemma_u64_roundtrip(b, p, 0x86, v);
        },
        OpCodeModel::Unlink(v) => {
            lemma_le_bytes_len(v as nat, 8);
            lemma_le_bytes_len(0x87, 2);
            lemma_u64_roundtrip(b, p, 0x87, v);
        },
        OpCodeModel::Send(v) => {
            lemma_le_bytes_len(v as nat, 8);
            lemma_le_bytes_len(0x8D, 2);
            lemma_u64_roundtrip(b, p, 0x8D, v);
        },
        OpCodeModel::PushStr(s) => lemma_str_op_roundtrip(b, p, 0x02, s),
        OpCodeModel::Store(s) => lemma_str_op_roundtrip(b, p, 0x50, s),
        OpCodeModel::Load(s) => lemma_str_op_roundtrip(b, p, 0x51, s),
        OpCodeModel::Delete(s) => lemma_str_op_roundtrip(b, p, 0x52, s),
        OpCodeModel::Register(s) => lemma_str_op_roundtrip(b, p, 0x81, s),
        OpCodeModel::Unregister(s) => lemma_str_op_roundtrip(b, p, 0x83, s),
        OpCodeModel::Whereis(s) => lemma_str_op_roundtrip(b, p, 0x82, s),
        OpCodeModel::SendNamed(s) => lemma_str_op_roundtrip(b, p, 0x84, s),
        OpCodeModel::SuperviseChild(s) => lemma_str_op_roundtrip(b, p, 0x89, s),
        OpCodeModel::RestartChild(s) => lemma_str_op_roundtrip(b, p, 0x8A, s),
        OpCodeModel::Jmp(a) => {
            lemma_le_bytes_len((a as u16) as nat, 2);
            lemma_le_bytes_len(0x30, 2);
            lemma_code(b, p, 0x30, le_bytes((a as u16) as nat, 2));
            lemma_le_roundtrip(b, p + 2, (a as u16) as nat, 2);
        },
        OpCodeModel::Jz(a) => {
            lemma_le_bytes_len((a as u16) as nat, 2);
            lemma_le_bytes_len(0x31, 2);
            lemma_code(b, p, 0x31, le_bytes((a as u16) as nat, 2));
            lemma_le_roundtrip(b, p + 2, (a as u16) as nat, 2);
        },
        OpCodeModel::Call { addr, params } => {
            let x = le_bytes((addr as u16) as nat, 2);
            let y = le_bytes((params.len() as u16) as nat, 2);
            let z = strs_bytes(params);
            lemma_le_bytes_len((addr as u16) as nat, 2);
            lemma_le_bytes_len((params.len() as u16) as nat, 2);
            assert(encode_op(op) =~= code_bytes(0x32) + (x + y + z));
            lemma_le_bytes_len(0x32, 2);
            lemma_code(b, p, 0x32, x + y + z);
            lemma_split(b, p + 2, x + y, z);
            lemma_split(b, p + 2, x, y);
            lemma_le_roundtrip(b, p + 2, (addr as u16) as nat, 2);
            lemma_le_roundtrip(b, p + 4, (params.len() as u16) as nat, 2);
            lemma_strs_roundtrip(b, p + 6, params);
        },
        OpCodeModel::MakeList(n) => {
            lemma_le_bytes_len(0x60, 2);
            lemma_code(b, p, 0x60, seq![n as u8]);
            assert(b[p + 2] == b.subrange(p + 2, p + 3)[0]);
        },
        _ => {
            lemma_unit_roundtrip(op);
            let c = unit_code_of(op)->Some_0;
            lemma_le_bytes_len(c as nat, 2);
            assert(encode_op(op) =~= code_bytes(c) + Seq::<u8>::empty());
            lemma_code(b, p, c, Seq::empty());
        },
    }
}


proof fn lemma_encode_step(ops: Seq<OpCodeModel>, j: int)
    requires
        0 <= j < ops.len(),
    ensures
        encode_program(ops.take(j + 1)) == encode_program(ops.take(j)) + encode_op(ops[j]),
{
    assert(ops.take(j + 1).drop_last() =~= ops.take(j));
    assert(ops.take(j + 1).last() == ops[j]);
}

/// The bytes of the first `j` instructions begin the bytes of the program.
proof fn lemma_encode_prefix(ops: Seq<OpCodeModel>, j: int)
    requires
        0 <= j <= ops.len(),
    ensures
        encode_program(ops.take(j)).len() <= encode_program(ops).len(),
        encode_program(ops).subrange(0, encode_program(ops.take(j)).len() as int) == encode_program(ops.take(j)),
    decreases ops.len() - j,
{
    if j == ops.len() {
        assert(ops.take(j) =~= ops);
        assert(encode_program(ops).subrange(0, encode_program(ops).len() as int) =~= encode_program(ops));
    } else {
        lemma_encode_prefix(ops, j + 1);
        lemma_encode_step(ops, j);
        let x = encode_program(ops.take(j));
        let y = encode_op(ops[j]);
        assert(encode_program(ops).subrange(0, x.len() as int) =~= (x + y).subrange(0, x.len() as int));
        assert((x + y).subrange(0, x.len() as int) =~= x);
    }
}

proof fn lemma_decode_suffix(ops: Seq<OpCodeModel>, i: int)
    requires
        0 <= i <= ops.len(),
        forall|k: int| 0 <= k < ops.len() ==> encodable(#[trigger] ops[k]),
    ensures
        decode_from(encode_program(ops), encode_program(ops.take(i)).len() as int) == Ok::<
            Seq<OpCodeModel>,
            crate::bytecode::DecodeError,
        >(ops.skip(i)),
    decreases ops.len() - i,
{
    let b = encode_program(ops);
    let off = encode_program(ops.take(i)).len() as int;
    lemma_encode_prefix(ops, i);
    if i == ops.len() {
        assert(ops.take(i) =~= ops);
        assert(ops.skip(i) =~= Seq::<OpCodeModel>::empty());
    } else {
        let e = encode_op(ops[i]);
        lemma_encode_prefix(ops, i + 1);
        lemma_encode_step(ops, i);
        let x = encode_program(ops.take(i));
        assert(b.subrange(off, off + e.len()) =~= b.subrange(0, off + e.len()).subrange(off, off + e.len()));
        assert((x + e).subrange(off, off + e.len()) =~= e);
        lemma_op_roundtrip(b, off, ops[i]);
        lemma_decode_suffix(ops, i + 1);
        assert(seq![ops[i]] + ops.skip(i + 1) =~= ops.skip(i));
    }
}

/// Reading back the bytes of a program gives the program, provided every
/// instruction fits the binary format.
pub proof fn lemma_decode_encode(ops: Seq<OpCodeModel>)
    requires
        forall|k: int| 0 <= k < ops.len() ==> encodable(#[trigger] ops[k]),
    ensures
        decode_from(encode_program(ops), 0) == Ok::<Seq<OpCodeModel>, crate::bytecode::DecodeError>(ops),
{
    lemma_decode_suffix(ops, 0);
    assert(ops.take(0) =~= Seq::<OpCodeModel>::empty());
    assert(ops.skip(0) =~= ops);
}

/// Loading the bytecode that [`compile`] writes for a text gives the program
/// the compiler read from it, provided every instruction fits the binary
/// format.
pub proof fn law_load_compiled(source: Seq<char>)
    requires
        compiled_program(source) is Ok,
        forall|k: int|
            0 <= k < compiled_program(source)->Ok_0.len() ==> encodable(
                #[trigger] compiled_program(source)->Ok_0[k],
            ),
    ensures
        compile_spec(source) is Ok,
        decode_from(compile_spec(source)->Ok_0, 0) == Ok::<Seq<OpCodeModel>, crate::bytecode::DecodeError>(
            compiled_program(source)->Ok_0,
        ),
{
    lemma_decode_encode(compiled_program(source)->Ok_0);
}


/// The bytecode compiler reads each mnemonic without operand as the same
/// instruction the assembler reads it as (`DUMPSCOPE`, which only the
/// bytecode compiler knows, aside).
#[verifier::rlimit(100)]
pub proof fn law_compiler_reads_mnemonics_as_assembler(m: Seq<char>)
    requires
        m != "DUMPSCOPE"@,
    ensures
        unit_op(m) is Some ==> crate::assembler::unit_mnemonic(m) == unit_op(m),
{
    crate::readback::lemma_literals();
}


/// The bytecode compiler reads each mnemonic whose operand is a name, a
/// string or a process identifier as the same instruction the assembler
/// reads it as (`SEND_NAMED`, which only the bytecode compiler spells so,
/// aside).
#[verifier::rlimit(100)]
pub proof fn law_compiler_reads_operands_as_assembler(m: Seq<char>, a: Seq<char>, p: u64)
    requires
        m != "SEND_NAMED"@,
    ensures
        quoted_op(m, a) is Some ==> quoted_op(m, a) == (match crate::assembler::trimmed_name_op(m, a) {
            Some(o) => Some(o),
            None => crate::assembler::quoted_name_op(m, a),
        }),
        pid_op(m, p) == crate::assembler::pid_op(m, p),
{
    crate::readback::lemma_literals();
}

} // verus!
