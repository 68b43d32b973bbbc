//! The binary bytecode format (`.ttb`): little-endian 16-bit instruction
//! codes, each followed by its operands.
use vstd::prelude::*;
use vstd::utf8::{valid_utf8, decode_utf8};
use crate::vm::opcode::{OpCode, OpCodeModel, opcode_model, program_model};
use crate::vm::value::strings_model;

verus! {

/// Why a byte sequence is no valid bytecode (the loader aborts on it).
#[derive(Clone, Copy, PartialEq, Eq, Debug)]
pub enum DecodeError {
    /// The bytes end inside an instruction.
    Truncated,
    /// A string operand is no valid UTF-8.
    InvalidUtf8,
    /// An instruction code that the format does not define.
    UnknownOpcode(u16),
}

/// `256` to the power `k`.
pub open spec fn pow256(k: nat) -> nat
    decreases k,
{
    if k == 0 {
        1
    } else {
        256 * pow256((k - 1) as nat)
    }
}

/// The little-endian value of the `k` bytes at `p`.
pub open spec fn le_value(b: Seq<u8>, p: int, k: nat) -> nat
    decreases k,
{
    if k == 0 {
        0
    } else {
        b[p] as nat + 256 * le_value(b, p + 1, (k - 1) as nat)
    }
}

/// A string operand at `p`: a 16-bit length, then that many bytes of UTF-8.
/// Gives the string and the position after it.
pub open spec fn read_str(b: Seq<u8>, p: int) -> Result<(Seq<char>, int), DecodeError> {
    if p + 2 > b.len() {
        Err(DecodeError::Truncated)
    } else {
        let n = le_value(b, p, 2);
        if p + 2 + n > b.len() {
            Err(DecodeError::Truncated)
        } else {
            let bytes = b.subrange(p + 2, p + 2 + n);
            if valid_utf8(bytes) {
                Ok((decode_utf8(bytes), p + 2 + n))
            } else {
                Err(DecodeError::InvalidUtf8)
            }
        }
    }
}

/// `count` string operands from `p` on.
pub open spec fn read_strs(b: Seq<u8>, p: int, count: nat) -> Result<(Seq<Seq<char>>, int), DecodeError>
    decreases count,
{
    if count == 0 {
        Ok((Seq::empty(), p))
    } else {
        match read_str(b, p) {
            Err(e) => Err(e),
            Ok((s, q)) => match read_strs(b, q, (count - 1) as nat) {
                Err(e) => Err(e),
                Ok((ss, r)) => Ok((seq![s] + ss, r)),
            },
        }
    }
}

/// The instruction of an operand-free code.
pub open spec fn unit_code(code: int) -> Option<OpCodeModel> {
    if code == 0x0003 {
        Some(OpCodeModel::True)
    } else if code == 0x0004 {
        Some(OpCodeModel::False)
    } else if code == 0x0005 {
        Some(OpCodeModel::Null)
    } else if code == 0x0006 {
        Some(OpCodeModel::Not)
    } else if code == 0x0007 {
        Some(OpCodeModel::And)
    } else if code == 0x0008 {
        Some(OpCodeModel::Or)
    } else if code == 0x0009 {
        Some(OpCodeModel::Dup)
    } else if code == 0x0010 {
        Some(OpCodeModel::Add)
    } else if code == 0x0011 {
        Some(OpCodeModel::Sub)
    } else if code == 0x0012 {
        Some(OpCodeModel::Concat)
    } else if code == 0x0020 {
        Some(OpCodeModel::Eq)
    } else if code == 0x0021 {
        Some(OpCodeModel::Gt)
    } else if code == 0x0022 {
        Some(OpCodeModel::Lt)
    } else if code == 0x0023 {
        Some(OpCodeModel::Ne)
    } else if code == 0x0024 {
        Some(OpCodeModel::Ge)
    } else if code == 0x0025 {
        Some(OpCodeModel::Le)
    } else if code == 0x0033 {
        Some(OpCodeModel::Ret)
    } else if code == 0x0040 {
        Some(OpCodeModel::Print)
    } else if code == 0x0061 {
        Some(OpCodeModel::Len)
    } else if code == 0x0062 {
        Some(OpCodeModel::Index)
    } else if code == 0x0070 {
        Some(OpCodeModel::DumpScope)
    } else if code == 0x0072 {
        Some(OpCodeModel::ReadFile)
    } else if code == 0x0073 {
        Some(OpCodeModel::WriteFile)
    } else if code == 0x0080 {
        Some(OpCodeModel::Spawn)
    } else if code == 0x0088 {
        Some(OpCodeModel::StartSupervisor)
    } else if code == 0x008B {
        Some(OpCodeModel::Yield)
    } else if code == 0x008C {
        Some(OpCodeModel::Receive)
    } else if code == 0x00FF {
        Some(OpCodeModel::Halt)
    } else {
        None
    }
}

/// The instruction of a code whose operand is a string.
pub open spec fn string_code(code: int, s: Seq<char>) -> Option<OpCodeModel> {
    if code == 0x0002 {
        Some(OpCodeModel::PushStr(s))
    } else if code == 0x0050 {
        Some(OpCodeModel::Store(s))
    } else if code == 0x0051 {
        Some(OpCodeModel::Load(s))
    } else if code == 0x0052 {
        Some(OpCodeModel::Delete(s))
    } else if code == 0x0081 {
        Some(OpCodeModel::Register(s))
    } else if code == 0x0082 {
        Some(OpCodeModel::Whereis(s))
    } else if code == 0x0083 {
        Some(OpCodeModel::Unregister(s))
    } else if code == 0x0084 {
        Some(OpCodeModel::SendNamed(s))
    } else if code == 0x0089 {
        Some(OpCodeModel::SuperviseChild(s))
    } else if code == 0x008A {
        Some(OpCodeModel::RestartChild(s))
    } else {
        None
    }
}

/// The instruction of a code whose operand is a process identifier.
pub open spec fn pid_code(code: int, p: u64) -> Option<OpCodeModel> {
    if code == 0x0085 {
        Some(OpCodeModel::Monitor(p))
    } else if code == 0x0086 {
        Some(OpCodeModel::Link(p))
    } else if code == 0x0087 {
        Some(OpCodeModel::Unlink(p))
    } else if code == 0x008D {
        Some(OpCodeModel::Send(p))
    } else {
        None
    }
}

fn unit_code_exec(code: u16) -> (r: Option<OpCode>)
    ensures
        match unit_code(code as int) {
            Some(o) => r is Some && opcode_model(r->Some_0) == o,
            None => r is None,
        },
{
    match code {
        0x0003 => Some(OpCode::True),
        0x0004 => Some(OpCode::False),
        0x0005 => Some(OpCode::Null),
        0x0006 => Some(OpCode::Not),
        0x0007 => Some(OpCode::And),
        0x0008 => Some(OpCode::Or),
        0x0009 => Some(OpCode::Dup),
        0x0010 => Some(OpCode::Add),
        0x0011 => Some(OpCode::Sub),
        0x0012 => Some(OpCode::Concat),
        0x0020 => Some(OpCode::Eq),
        0x0021 => Some(OpCode::Gt),
        0x0022 => Some(OpCode::Lt),
        0x0023 => Some(OpCode::Ne),
        0x0024 => Some(OpCode::Ge),
        0x0025 => Some(OpCode::Le),
        0x0033 => Some(OpCode::Ret),
        0x0040 => Some(OpCode::Print),
        0x0061 => Some(OpCode::Len),
        0x0062 => Some(OpCode::Index),
        0x0070 => Some(OpCode::DumpScope),
        0x0072 => Some(OpCode::ReadFile),
        0x0073 => Some(OpCode::WriteFile),
        0x0080 => Some(OpCode::Spawn),
        0x0088 => Some(OpCode::StartSupervisor),
        0x008B => Some(OpCode::Yield),
        0x008C => Some(OpCode::Receive),
        0x00FF => Some(OpCode::Halt),
        _ => None,
    }
}

fn string_code_exec(code: u16, s: String) -> (r: Option<OpCode>)
    ensures
        match string_code(code as int, s@) {
            Some(o) => r is Some && opcode_model(r->Some_0) == o,
            None => r is None,
        },
{
    match code {
        0x0002 => Some(OpCode::PushStr(s)),
        0x0050 => Some(OpCode::Store(s)),
        0x0051 => Some(OpCode::Load(s)),
        0x0052 => Some(OpCode::Delete(s)),
        0x0081 => Some(OpCode::Register(s)),
        0x0082 => Some(OpCode::Whereis(s)),
        0x0083 => Some(OpCode::Unregister(s)),
        0x0084 => Some(OpCode::SendNamed(s)),
        0x0089 => Some(OpCode::SuperviseChild(s)),
        0x008A => Some(OpCode::RestartChild(s)),
        _ => None,
    }
}

fn is_string_code(code: u16) -> (b: bool)
    ensures
        b == (string_code(code as int, Seq::empty()) is Some),
{
    match code {
        0x0002 | 0x0050 | 0x0051 | 0x0052 | 0x0081 | 0x0082 | 0x0083 | 0x0084 | 0x0089 | 0x008A => true,
        _ => false,
    }
}

fn pid_code_exec(code: u16, p: u64) -> (r: Option<OpCode>)
    ensures
        match pid_code(code as int, p) {
            Some(o) => r is Some && opcode_model(r->Some_0) == o,
            None => r is None,
        },
{
    match code {
        0x0085 => Some(OpCode::Monitor(p)),
        0x0086 => Some(OpCode::Link(p)),
        0x0087 => Some(OpCode::Unlink(p)),
        0x008D => Some(OpCode::Send(p)),
        _ => None,
    }
}

/// The instruction with code `code` whose operands start at `p`, and the
/// position after it.
pub open spec fn decode_one(b: Seq<u8>, code: int, p: int) -> Result<(OpCodeModel, int), DecodeError> {
    if code == 0x0001 {
        if p + 8 > b.len() {
            Err(DecodeError::Truncated)
        } else {
            Ok((OpCodeModel::PushInt(le_value(b, p, 8) as i64), p + 8))
        }
    } else if string_code(code, Seq::empty()) is Some {
        match read_str(b, p) {
            Ok((s, q)) => Ok((string_code(code, s)->Some_0, q)),
            Err(e) => Err(e),
        }
    } else if code == 0x0030 || code == 0x0031 {
        if p + 2 > b.len() {
            Err(DecodeError::Truncated)
        } else {
            let a = le_value(b, p, 2) as usize;
            Ok((
                if code == 0x0030 {
                    OpCodeModel::Jmp(a)
                } else {
                    OpCodeModel::Jz(a)
                },
                p + 2,
            ))
        }
    } else if code == 0x0032 {
        if p + 4 > b.len() {
            Err(DecodeError::Truncated)
        } else {
            match read_strs(b, p + 4, le_value(b, p + 2, 2)) {
                Ok((ps, q)) => Ok((OpCodeModel::Call { addr: le_value(b, p, 2) as usize, params: ps }, q)),
                Err(e) => Err(e),
            }
        }
    } else if code == 0x0060 {
        if p + 1 > b.len() {
            Err(DecodeError::Truncated)
        } else {
            Ok((OpCodeModel::MakeList(b[p] as usize), p + 1))
        }
    } else if pid_code(code, 0) is Some {
        if p + 8 > b.len() {
            Err(DecodeError::Truncated)
        } else {
            Ok((pid_code(code, le_value(b, p, 8) as u64)->Some_0, p + 8))
        }
    } else {
        match unit_code(code) {
            Some(o) => Ok((o, p)),
            None => Err(DecodeError::UnknownOpcode(code as u16)),
        }
    }
}

/// The instructions encoded from position `ip` on.
pub open spec fn decode_from(b: Seq<u8>, ip: int) -> Result<Seq<OpCodeModel>, DecodeError>
    decreases b.len() - ip,
{
    if ip < 0 || ip >= b.len() {
        Ok(Seq::empty())
    } else if ip + 2 > b.len() {
        Err(DecodeError::Truncated)
    } else {
        match decode_one(b, le_value(b, ip, 2) as int, ip + 2) {
            Err(e) => Err(e),
            Ok((op, next)) => if ip < next <= b.len() {
                match decode_from(b, next) {
                    Ok(rest) => Ok(seq![op] + rest),
                    Err(e) => Err(e),
                }
            } else {
                Err(DecodeError::Truncated)
            },
        }
    }
}


proof fn lemma_le_value_bound(b: Seq<u8>, p: int, k: nat)
    ensures
        le_value(b, p, k) < pow256(k),
    decreases k,
{
    if k > 0 {
        lemma_le_value_bound(b, p + 1, (k - 1) as nat);
        let r = le_value(b, p + 1, (k - 1) as nat);
        let x = b[p] as nat;
        let q = pow256((k - 1) as nat);
        assert(x + 256 * r < 256 * q) by (nonlinear_arith)
            requires
                x < 256,
                r < q,
        ;
    }
}

/// The little-endian value of the `k` bytes at `p` (at most 8 bytes).
fn read_le(b: &[u8], p: usize, k: usize) -> (v: u64)
    requires
        k <= 8,
        p + k <= b@.len(),
    ensures
        v as nat == le_value(b@, p as int, k as nat),
{
    let len = b.len();
    let mut acc: u64 = 0;
    let mut j: usize = k;
    assert(pow256(0) == 1);
    while j > 0
        invariant
            len == b@.len(),
            j <= k <= 8,
            p + k <= len,
            acc as nat == le_value(b@, p + j, (k - j) as nat),
            acc as nat <= pow256((k - j) as nat) - 1,
        decreases j,
    {
        j = j - 1;
        let x = b[p + j] as u64;
        proof {
            assert(le_value(b@, p + j, (k - j) as nat) == x as nat + 256 * le_value(
                b@,
                p + j + 1,
                (k - j - 1) as nat,
            ));
            lemma_pow256_le8((k - j) as nat);
            lemma_le_value_bound(b@, (p + j) as int, (k - j) as nat);
        }
        acc = x + 256 * acc;
    }
    acc
}

/// The little-endian 16-bit value at `p`.
fn read_u16(b: &[u8], p: usize) -> (v: u16)
    requires
        p + 2 <= b@.len(),
    ensures
        v as nat == le_value(b@, p as int, 2),
{
    let lo = b[p] as u16;
    let hi = b[p + 1] as u16;
    proof {
        reveal_with_fuel(le_value, 3);
    }
    lo + 256 * hi
}

proof fn lemma_pow256_le8(k: nat)
    requires
        k <= 8,
    ensures
        pow256(k) <= 0x1_0000_0000_0000_0000,
    decreases k,
{
    reveal_with_fuel(pow256, 9);
    if k > 0 {
        lemma_pow256_le8((k - 1) as nat);
    }
}

/// The string of a byte sequence if it is valid UTF-8 (`String::from_utf8`).
#[verifier::external_body]
fn utf8_string(bytes: Vec<u8>) -> (r: Option<String>)
    ensures
        match r {
            Some(s) => valid_utf8(bytes@) && s@ == decode_utf8(bytes@),
            None => !valid_utf8(bytes@),
        },
{
    String::from_utf8(bytes).ok()
}

fn read_str_exec(b: &[u8], p: usize) -> (r: Result<(String, usize), DecodeError>)
    requires
        p <= b@.len(),
    ensures
        match read_str(b@, p as int) {
            Ok((s, q)) => r is Ok && r->Ok_0.0@ == s && r->Ok_0.1 == q,
            Err(e) => r == Err::<(String, usize), DecodeError>(e),
        },
{
    let len = b.len();
    if len - p < 2 {
        return Err(DecodeError::Truncated);
    }
    let n = read_u16(b, p) as usize;
    if len - p - 2 < n {
        return Err(DecodeError::Truncated);
    }
    let mut bytes: Vec<u8> = Vec::new();
    let mut i: usize = 0;
    while i < n
        invariant
            len == b@.len(),
            i <= n,
            p + 2 + n <= len,
            bytes@ == b@.subrange(p + 2, p + 2 + i),
        decreases n - i,
    {
        bytes.push(b[p + 2 + i]);
        i = i + 1;
    }
    match utf8_string(bytes) {
        Some(s) => Ok((s, p + 2 + n)),
        None => Err(DecodeError::InvalidUtf8),
    }
}

fn read_strs_exec(b: &[u8], p: usize, count: usize) -> (r: Result<(Vec<String>, usize), DecodeError>)
    requires
        p <= b@.len(),
    ensures
        match read_strs(b@, p as int, count as nat) {
            Ok((ss, q)) => r is Ok && strings_model(r->Ok_0.0@) == ss && r->Ok_0.1 == q,
            Err(e) => r == Err::<(Vec<String>, usize), DecodeError>(e),
        },
{
    let mut out: Vec<String> = Vec::new();
    let mut q = p;
    let mut k: usize = 0;
    assert(strings_model(out@) =~= Seq::<Seq<char>>::empty());
    while k < count
        invariant
            k <= count,
            q <= b@.len(),
            read_strs(b@, p as int, count as nat) == match read_strs(b@, q as int, (count - k) as nat) {
                Ok((ss, r)) => Ok((strings_model(out@) + ss, r)),
                Err(e) => Err(e),
            },
        decreases count - k,
    {
        match read_str_exec(b, q) {
            Ok((s, next)) => {
                let ghost before = strings_model(out@);
                out.push(s);
                assert(strings_model(out@) =~= before.push(s@));
                proof {
                    match read_strs(b@, next as int, (count - k - 1) as nat) {
                        Ok((ss, r)) => {
                            assert(before + (seq![s@] + ss) =~= strings_model(out@) + ss);
                        },
                        Err(_) => {},
                    }
                }
                q = next;
            },
            Err(e) => {
                return Err(e);
            },
        }
        k = k + 1;
    }
    assert(strings_model(out@) + Seq::<Seq<char>>::empty() =~= strings_model(out@));
    Ok((out, q))
}

/// The instruction with code `code` whose operands start at `p`, and the
/// position after it.
pub fn decode_one_exec(b: &[u8], code: u16, p: usize) -> (r: Result<(OpCode, usize), DecodeError>)
    requires
        p <= b@.len(),
    ensures
        match decode_one(b@, code as int, p as int) {
            Ok((o, q)) => r is Ok && opcode_model(r->Ok_0.0) == o && r->Ok_0.1 == q,
            Err(e) => r == Err::<(OpCode, usize), DecodeError>(e),
        },
{
    let left = b.len() - p;
    if code == 0x0001 {
        if left < 8 {
            return Err(DecodeError::Truncated);
        }
        let v = read_le(b, p, 8);
        Ok((OpCode::PushInt(v as i64), p + 8))
    } else if is_string_code(code) {
        match read_str_exec(b, p) {
            Ok((s, q)) => match string_code_exec(code, s) {
                Some(o) => Ok((o, q)),
                None => Err(DecodeError::UnknownOpcode(code)),
            },
            Err(e) => Err(e),
        }
    } else if code == 0x0030 || code == 0x0031 {
        if left < 2 {
            return Err(DecodeError::Truncated);
        }
        let a = read_u16(b, p) as usize;
        Ok((
            if code == 0x0030 {
                OpCode::Jmp(a)
            } else {
                OpCode::Jz(a)
            },
            p + 2,
        ))
    } else if code == 0x0032 {
        if left < 4 {
            return Err(DecodeError::Truncated);
        }
        let addr = read_u16(b, p) as usize;
        let count = read_u16(b, p + 2) as usize;
        match read_strs_exec(b, p + 4, count) {
            Ok((params, q)) => Ok((OpCode::Call { addr, params }, q)),
            Err(e) => Err(e),
        }
    } else if code == 0x0060 {
        if left < 1 {
            return Err(DecodeError::Truncated);
        }
        Ok((OpCode::MakeList(b[p] as usize), p + 1))
    } else if pid_code_exec(code, 0).is_some() {
        if left < 8 {
            return Err(DecodeError::Truncated);
        }
        let v = read_le(b, p, 8);
        match pid_code_exec(code, v) {
            Some(o) => Ok((o, p + 8)),
            None => Err(DecodeError::UnknownOpcode(code)),
        }
    } else {
        match unit_code_exec(code) {
            Some(o) => Ok((o, p)),
            None => Err(DecodeError::UnknownOpcode(code)),
        }
    }
}

proof fn lemma_read_strs_end(b: Seq<u8>, p: int, count: nat)
    requires
        0 <= p <= b.len(),
    ensures
        read_strs(b, p, count) matches Ok((_, q)) ==> p <= q <= b.len(),
    decreases count,
{
    if count > 0 {
        match read_str(b, p) {
            Ok((s, q)) => {
                lemma_read_strs_end(b, q, (count - 1) as nat);
            },
            Err(_) => {},
        }
    }
}

/// Decodes a bytecode image into instructions.
pub fn load_bytecode(bytes: &[u8]) -> (r: Result<Vec<OpCode>, DecodeError>)
    ensures
        match decode_from(bytes@, 0) {
            Ok(p) => r is Ok && program_model(r->Ok_0@) == p,
            Err(e) => r == Err::<Vec<OpCode>, DecodeError>(e),
        },
{
    let mut instructions: Vec<OpCode> = Vec::new();
    let mut ip: usize = 0;
    assert(program_model(instructions@) =~= Seq::<OpCodeModel>::empty());
    while ip < bytes.len()
        invariant
            ip <= bytes@.len(),
            decode_from(bytes@, 0) == match decode_from(bytes@, ip as int) {
                Ok(rest) => Ok(program_model(instructions@) + rest),
                Err(e) => Err(e),
            },
        decreases bytes.len() - ip,
    {
        if bytes.len() - ip < 2 {
            return Err(DecodeError::Truncated);
        }
        let code = read_u16(bytes, ip);
        proof {
            lemma_le_value_bound(bytes@, ip as int, 2);
            assert(pow256(2) == 65536) by {
                reveal_with_fuel(pow256, 3);
            }
            match decode_one(bytes@, code as int, ip + 2) {
                Ok((_, q)) => {
                    if code == 0x0032 {
                        lemma_read_strs_end(bytes@, ip + 6, le_value(bytes@, ip + 4, 2));
                    }
                },
                Err(_) => {},
            }
        }
        match decode_one_exec(bytes, code, ip + 2) {
            Ok((op, next)) => {
                let ghost before = program_model(instructions@);
                instructions.push(op);
                assert(program_model(instructions@) =~= before.push(opcode_model(op)));
                proof {
                    match decode_from(bytes@, next as int) {
                        Ok(rest) => {
                            assert(before + (seq![opcode_model(op)] + rest) =~= program_model(instructions@) + rest);
                        },
                        Err(_) => {},
                    }
                }
                ip = next;
            },
            Err(e) => {
                return Err(e);
            },
        }
    }
    assert(program_model(instructions@) + Seq::<OpCodeModel>::empty() =~= program_model(instructions@));
    Ok(instructions)
}

} // verus!
