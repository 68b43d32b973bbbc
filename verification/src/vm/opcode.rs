use vstd::prelude::*;
use crate::vm::value::{Value, ValueModel, value_model, strings_model, copy_strings};

verus! {

/// Identifier of a process.
pub type ProcId = u64;

/// A pattern of a selective receive.
#[derive(Debug, PartialEq)]
pub enum MessagePattern {
    Any,
    Value(Value),
    Signal(String),
    Exit(Option<ProcId>),
    Down(Option<ProcId>, Option<String>),
    Link(Option<ProcId>),
    Type(String),
    Guard(String),
}

/// The model of a message pattern.
pub enum PatternModel {
    Any,
    Value(ValueModel),
    Signal(Seq<char>),
    Exit(Option<ProcId>),
    Down(Option<ProcId>, Option<Seq<char>>),
    Link(Option<ProcId>),
    Type(Seq<char>),
    Guard(Seq<char>),
}

/// The model of a pattern.
pub open spec fn pattern_model(p: MessagePattern) -> PatternModel {
    match p {
        MessagePattern::Any => PatternModel::Any,
        MessagePattern::Value(v) => PatternModel::Value(value_model(v)),
        MessagePattern::Signal(s) => PatternModel::Signal(s@),
        MessagePattern::Exit(p) => PatternModel::Exit(p),
        MessagePattern::Down(p, r) => PatternModel::Down(
            p,
            match r {
                Some(s) => Some(s@),
                None => None,
            },
        ),
        MessagePattern::Link(p) => PatternModel::Link(p),
        MessagePattern::Type(s) => PatternModel::Type(s@),
        MessagePattern::Guard(s) => PatternModel::Guard(s@),
    }
}

/// The models of a sequence of patterns.
pub open spec fn patterns_model(s: Seq<MessagePattern>) -> Seq<PatternModel> {
    Seq::new(s.len(), |i: int| pattern_model(s[i]))
}

impl MessagePattern {
    /// A copy of the pattern with the same model.
    pub fn copy(&self) -> (r: MessagePattern)
        ensures
            pattern_model(r) == pattern_model(*self),
    {
        match self {
            MessagePattern::Any => MessagePattern::Any,
            MessagePattern::Value(v) => MessagePattern::Value(v.copy()),
            MessagePattern::Signal(s) => MessagePattern::Signal(s.clone()),
            MessagePattern::Exit(p) => MessagePattern::Exit(*p),
            MessagePattern::Down(p, r) => MessagePattern::Down(
                *p,
                match r {
                    Some(s) => Some(s.clone()),
                    None => None,
                },
            ),
            MessagePattern::Link(p) => MessagePattern::Link(*p),
            MessagePattern::Type(s) => MessagePattern::Type(s.clone()),
            MessagePattern::Guard(s) => MessagePattern::Guard(s.clone()),
        }
    }
}

/// A copy of a vector of patterns.
pub fn copy_patterns(v: &Vec<MessagePattern>) -> (r: Vec<MessagePattern>)
    ensures
        patterns_model(r@) == patterns_model(v@),
{
    let mut r: Vec<MessagePattern> = Vec::new();
    let mut i: usize = 0;
    while i < v.len()
        invariant
            i <= v.len(),
            r@.len() == i,
            forall|j: int| 0 <= j < i ==> pattern_model(#[trigger] r@[j]) == pattern_model(v@[j]),
        decreases v.len() - i,
    {
        r.push(v[i].copy());
        i = i + 1;
    }
    assert(patterns_model(r@) =~= patterns_model(v@));
    r
}

/// An instruction of the stack machine.
///
/// `PushFloat` carries the IEEE-754 bit pattern of its constant.
#[derive(Debug, PartialEq)]
pub enum OpCode {
    PushInt(i64),
    PushFloat(u64),
    PushStr(String),
    PushBool(bool),
    Add,
    AddF,
    Sub,
    SubF,
    Mul,
    MulF,
    Div,
    DivF,
    Concat,
    Print,
    Halt,
    Jmp(usize),
    Jz(usize),
    Call { addr: usize, params: Vec<String> },
    Ret,
    Dup,
    Store(String),
    Load(String),
    Delete(String),
    Eq,
    Ne,
    Gt,
    Lt,
    Ge,
    Le,
    EqF,
    NeF,
    GtF,
    LtF,
    GeF,
    LeF,
    True,
    False,
    Not,
    And,
    Or,
    Null,
    MakeList(usize),
    Len,
    Index,
    DumpScope,
    ReadFile,
    WriteFile,
    ReadLine,
    ReadChar,
    ReadInput,
    AppendFile,
    FileExists,
    FileSize,
    DeleteFile,
    ListDir,
    ReadBytes,
    WriteBytes,
    GetEnv,
    SetEnv,
    GetArgs,
    Exec,
    ExecCapture,
    Exit,
    GetTime,
    Sleep,
    FormatTime,
    HttpGet,
    HttpPost,
    TcpConnect,
    TcpListen,
    TcpSend,
    TcpRecv,
    UdpBind,
    UdpSend,
    UdpRecv,
    DnsResolve,
    AsyncRead,
    AsyncWrite,
    Await,
    StreamCreate,
    StreamRead,
    StreamWrite,
    StreamClose,
    JsonParse,
    JsonStringify,
    CsvParse,
    CsvWrite,
    Compress,
    Decompress,
    Encrypt,
    Decrypt,
    Hash,
    DbConnect,
    DbQuery,
    DbExec,
    MakeObject,
    SetField(String),
    GetField(String),
    HasField(String),
    DeleteField(String),
    Keys,
    MakeFunction { addr: usize, params: Vec<String> },
    CallFunction,
    MakeLambda { addr: usize, params: Vec<String> },
    Capture(String),
    Try { catch_addr: usize },
    Catch,
    Throw,
    EndTry,
    Import(String),
    Export(String),
    Spawn,
    Receive,
    ReceiveMatch(Vec<MessagePattern>),
    Yield,
    Send(u64),
    Monitor(u64),
    Demonitor(String),
    Link(u64),
    Unlink(u64),
    TrapExit,
    Register(String),
    Unregister(String),
    Whereis(String),
    SendNamed(String),
    StartSupervisor,
    SuperviseChild(String),
    RestartChild(String),
}

/// The mathematical model of an instruction: strings are character sequences.
pub enum OpCodeModel {
    PushInt(i64),
    PushFloat(u64),
    PushStr(Seq<char>),
    PushBool(bool),
    Add,
    AddF,
    Sub,
    SubF,
    Mul,
    MulF,
    Div,
    DivF,
    Concat,
    Print,
    Halt,
    Jmp(usize),
    Jz(usize),
    Call { addr: usize, params: Seq<Seq<char>> },
    Ret,
    Dup,
    Store(Seq<char>),
    Load(Seq<char>),
    Delete(Seq<char>),
    Eq,
    Ne,
    Gt,
    Lt,
    Ge,
    Le,
    EqF,
    NeF,
    GtF,
    LtF,
    GeF,
    LeF,
    True,
    False,
    Not,
    And,
    Or,
    Null,
    MakeList(usize),
    Len,
    Index,
    DumpScope,
    ReadFile,
    WriteFile,
    ReadLine,
    ReadChar,
    ReadInput,
    AppendFile,
    FileExists,
    FileSize,
    DeleteFile,
    ListDir,
    ReadBytes,
    WriteBytes,
    GetEnv,
    SetEnv,
    GetArgs,
    Exec,
    ExecCapture,
    Exit,
    GetTime,
    Sleep,
    FormatTime,
    HttpGet,
    HttpPost,
    TcpConnect,
    TcpListen,
    TcpSend,
    TcpRecv,
    UdpBind,
    UdpSend,
    UdpRecv,
    DnsResolve,
    AsyncRead,
    AsyncWrite,
    Await,
    StreamCreate,
    StreamRead,
    StreamWrite,
    StreamClose,
    JsonParse,
    JsonStringify,
    CsvParse,
    CsvWrite,
    Compress,
    Decompress,
    Encrypt,
    Decrypt,
    Hash,
    DbConnect,
    DbQuery,
    DbExec,
    MakeObject,
    SetField(Seq<char>),
    GetField(Seq<char>),
    HasField(Seq<char>),
    DeleteField(Seq<char>),
    Keys,
    MakeFunction { addr: usize, params: Seq<Seq<char>> },
    CallFunction,
    MakeLambda { addr: usize, params: Seq<Seq<char>> },
    Capture(Seq<char>),
    Try { catch_addr: usize },
    Catch,
    Throw,
    EndTry,
    Import(Seq<char>),
    Export(Seq<char>),
    Spawn,
    Receive,
    ReceiveMatch(Seq<PatternModel>),
    Yield,
    Send(u64),
    Monitor(u64),
    Demonitor(Seq<char>),
    Link(u64),
    Unlink(u64),
    TrapExit,
    Register(Seq<char>),
    Unregister(Seq<char>),
    Whereis(Seq<char>),
    SendNamed(Seq<char>),
    StartSupervisor,
    SuperviseChild(Seq<char>),
    RestartChild(Seq<char>),
}

/// The model of an instruction.
pub open spec fn opcode_model(op: OpCode) -> OpCodeModel {
    match op {
        OpCode::PushInt(x) => OpCodeModel::PushInt(x),
        OpCode::PushFloat(x) => OpCodeModel::PushFloat(x),
        OpCode::PushStr(s) => OpCodeModel::PushStr(s@),
        OpCode::PushBool(x) => OpCodeModel::PushBool(x),
        OpCode::Add => OpCodeModel::Add,
        OpCode::AddF => OpCodeModel::AddF,
        OpCode::Sub => OpCodeModel::Sub,
        OpCode::SubF => OpCodeModel::SubF,
        OpCode::Mul => OpCodeModel::Mul,
        OpCode::MulF => OpCodeModel::MulF,
        OpCode::Div => OpCodeModel::Div,
        OpCode::DivF => OpCodeModel::DivF,
        OpCode::Concat => OpCodeModel::Concat,
        OpCode::Print => OpCodeModel::Print,
        OpCode::Halt => OpCodeModel::Halt,
        OpCode::Jmp(x) => OpCodeModel::Jmp(x),
        OpCode::Jz(x) => OpCodeModel::Jz(x),
        OpCode::Call { addr, params } => OpCodeModel::Call { addr, params: strings_model(params@) },
        OpCode::Ret => OpCodeModel::Ret,
        OpCode::Dup => OpCodeModel::Dup,
        OpCode::Store(s) => OpCodeModel::Store(s@),
        OpCode::Load(s) => OpCodeModel::Load(s@),
        OpCode::Delete(s) => OpCodeModel::Delete(s@),
        OpCode::Eq => OpCodeModel::Eq,
        OpCode::Ne => OpCodeModel::Ne,
        OpCode::Gt => OpCodeModel::Gt,
        OpCode::Lt => OpCodeModel::Lt,
        OpCode::Ge => OpCodeModel::Ge,
        OpCode::Le => OpCodeModel::Le,
        OpCode::EqF => OpCodeModel::EqF,
        OpCode::NeF => OpCodeModel::NeF,
        OpCode::GtF => OpCodeModel::GtF,
        OpCode::LtF => OpCodeModel::LtF,
        OpCode::GeF => OpCodeModel::GeF,
        OpCode::LeF => OpCodeModel::LeF,
        OpCode::True => OpCodeModel::True,
        OpCode::False => OpCodeModel::False,
        OpCode::Not => OpCodeModel::Not,
        OpCode::And => OpCodeModel::And,
        OpCode::Or => OpCodeModel::Or,
        OpCode::Null => OpCodeModel::Null,
        OpCode::MakeList(x) => OpCodeModel::MakeList(x),
        OpCode::Len => OpCodeModel::Len,
        OpCode::Index => OpCodeModel::Index,
        OpCode::DumpScope => OpCodeModel::DumpScope,
        OpCode::ReadFile => OpCodeModel::ReadFile,
        OpCode::WriteFile => OpCodeModel::WriteFile,
        OpCode::ReadLine => OpCodeModel::ReadLine,
        OpCode::ReadChar => OpCodeModel::ReadChar,
        OpCode::ReadInput => OpCodeModel::ReadInput,
        OpCode::AppendFile => OpCodeModel::AppendFile,
        OpCode::FileExists => OpCodeModel::FileExists,
        OpCode::FileSize => OpCodeModel::FileSize,
        OpCode::DeleteFile => OpCodeModel::DeleteFile,
        OpCode::ListDir => OpCodeModel::ListDir,
        OpCode::ReadBytes => OpCodeModel::ReadBytes,
        OpCode::WriteBytes => OpCodeModel::WriteBytes,
        OpCode::GetEnv => OpCodeModel::GetEnv,
        OpCode::SetEnv => OpCodeModel::SetEnv,
        OpCode::GetArgs => OpCodeModel::GetArgs,
        OpCode::Exec => OpCodeModel::Exec,
        OpCode::ExecCapture => OpCodeModel::ExecCapture,
        OpCode::Exit => OpCodeModel::Exit,
        OpCode::GetTime => OpCodeModel::GetTime,
        OpCode::Sleep => OpCodeModel::Sleep,
        OpCode::FormatTime => OpCodeModel::FormatTime,
        OpCode::HttpGet => OpCodeModel::HttpGet,
        OpCode::HttpPost => OpCodeModel::HttpPost,
        OpCode::TcpConnect => OpCodeModel::TcpConnect,
        OpCode::TcpListen => OpCodeModel::TcpListen,
        OpCode::TcpSend => OpCodeModel::TcpSend,
        OpCode::TcpRecv => OpCodeModel::TcpRecv,
        OpCode::UdpBind => OpCodeModel::UdpBind,
        OpCode::UdpSend => OpCodeModel::UdpSend,
        OpCode::UdpRecv => OpCodeModel::UdpRecv,
        OpCode::DnsResolve => OpCodeModel::DnsResolve,
        OpCode::AsyncRead => OpCodeModel::AsyncRead,
        OpCode::AsyncWrite => OpCodeModel::AsyncWrite,
        OpCode::Await => OpCodeModel::Await,
        OpCode::StreamCreate => OpCodeModel::StreamCreate,
        OpCode::StreamRead => OpCodeModel::StreamRead,
        OpCode::StreamWrite => OpCodeModel::StreamWrite,
        OpCode::StreamClose => OpCodeModel::StreamClose,
        OpCode::JsonParse => OpCodeModel::JsonParse,
        OpCode::JsonStringify => OpCodeModel::JsonStringify,
        OpCode::CsvParse => OpCodeModel::CsvParse,
        OpCode::CsvWrite => OpCodeModel::CsvWrite,
        OpCode::Compress => OpCodeModel::Compress,
        OpCode::Decompress => OpCodeModel::Decompress,
        OpCode::Encrypt => OpCodeModel::Encrypt,
        OpCode::Decrypt => OpCodeModel::Decrypt,
        OpCode::Hash => OpCodeModel::Hash,
        OpCode::DbConnect => OpCodeModel::DbConnect,
        OpCode::DbQuery => OpCodeModel::DbQuery,
        OpCode::DbExec => OpCodeModel::DbExec,
        OpCode::MakeObject => OpCodeModel::MakeObject,
        OpCode::SetField(s) => OpCodeModel::SetField(s@),
        OpCode::GetField(s) => OpCodeModel::GetField(s@),
        OpCode::HasField(s) => OpCodeModel::HasField(s@),
        OpCode::DeleteField(s) => OpCodeModel::DeleteField(s@),
        OpCode::Keys => OpCodeModel::Keys,
        OpCode::MakeFunction { addr, params } => OpCodeModel::MakeFunction { addr, params: strings_model(params@) },
        OpCode::CallFunction => OpCodeModel::CallFunction,
        OpCode::MakeLambda { addr, params } => OpCodeModel::MakeLambda { addr, params: strings_model(params@) },
        OpCode::Capture(s) => OpCodeModel::Capture(s@),
        OpCode::Try { catch_addr } => OpCodeModel::Try { catch_addr },
        OpCode::Catch => OpCodeModel::Catch,
        OpCode::Throw => OpCodeModel::Throw,
        OpCode::EndTry => OpCodeModel::EndTry,
        OpCode::Import(s) => OpCodeModel::Import(s@),
        OpCode::Export(s) => OpCodeModel::Export(s@),
        OpCode::Spawn => OpCodeModel::Spawn,
        OpCode::Receive => OpCodeModel::Receive,
        OpCode::ReceiveMatch(p) => OpCodeModel::ReceiveMatch(patterns_model(p@)),
        OpCode::Yield => OpCodeModel::Yield,
        OpCode::Send(x) => OpCodeModel::Send(x),
        OpCode::Monitor(x) => OpCodeModel::Monitor(x),
        OpCode::Demonitor(s) => OpCodeModel::Demonitor(s@),
        OpCode::Link(x) => OpCodeModel::Link(x),
        OpCode::Unlink(x) => OpCodeModel::Unlink(x),
        OpCode::TrapExit => OpCodeModel::TrapExit,
        OpCode::Register(s) => OpCodeModel::Register(s@),
        OpCode::Unregister(s) => OpCodeModel::Unregister(s@),
        OpCode::Whereis(s) => OpCodeModel::Whereis(s@),
        OpCode::SendNamed(s) => OpCodeModel::SendNamed(s@),
        OpCode::StartSupervisor => OpCodeModel::StartSupervisor,
        OpCode::SuperviseChild(s) => OpCodeModel::SuperviseChild(s@),
        OpCode::RestartChild(s) => OpCodeModel::RestartChild(s@),
    }
}

impl OpCode {
    /// A copy of the instruction with the same model.
    pub fn copy(&self) -> (r: OpCode)
        ensures
            opcode_model(r) == opcode_model(*self),
    {
        match self {
            OpCode::PushInt(x) => OpCode::PushInt(*x),
            OpCode::PushFloat(x) => OpCode::PushFloat(*x),
            OpCode::PushStr(s) => OpCode::PushStr(s.clone()),
            OpCode::PushBool(x) => OpCode::PushBool(*x),
            OpCode::Add => OpCode::Add,
            OpCode::AddF => OpCode::AddF,
            OpCode::Sub => OpCode::Sub,
            OpCode::SubF => OpCode::SubF,
            OpCode::Mul => OpCode::Mul,
            OpCode::MulF => OpCode::MulF,
            OpCode::Div => OpCode::Div,
            OpCode::DivF => OpCode::DivF,
            OpCode::Concat => OpCode::Concat,
            OpCode::Print => OpCode::Print,
            OpCode::Halt => OpCode::Halt,
            OpCode::Jmp(x) => OpCode::Jmp(*x),
            OpCode::Jz(x) => OpCode::Jz(*x),
            OpCode::Call { addr, params } => OpCode::Call { addr: *addr, params: copy_strings(params) },
            OpCode::Ret => OpCode::Ret,
            OpCode::Dup => OpCode::Dup,
            OpCode::Store(s) => OpCode::Store(s.clone()),
            OpCode::Load(s) => OpCode::Load(s.clone()),
            OpCode::Delete(s) => OpCode::Delete(s.clone()),
            OpCode::Eq => OpCode::Eq,
            OpCode::Ne => OpCode::Ne,
            OpCode::Gt => OpCode::Gt,
            OpCode::Lt => OpCode::Lt,
            OpCode::Ge => OpCode::Ge,
            OpCode::Le => OpCode::Le,
            OpCode::EqF => OpCode::EqF,
            OpCode::NeF => OpCode::NeF,
            OpCode::GtF => OpCode::GtF,
            OpCode::LtF => OpCode::LtF,
            OpCode::GeF => OpCode::GeF,
            OpCode::LeF => OpCode::LeF,
            OpCode::True => OpCode::True,
            OpCode::False => OpCode::False,
            OpCode::Not => OpCode::Not,
            OpCode::And => OpCode::And,
            OpCode::Or => OpCode::Or,
            OpCode::Null => OpCode::Null,
            OpCode::MakeList(x) => OpCode::MakeList(*x),
            OpCode::Len => OpCode::Len,
            OpCode::Index => OpCode::Index,
            OpCode::DumpScope => OpCode::DumpScope,
            OpCode::ReadFile => OpCode::ReadFile,
            OpCode::WriteFile => OpCode::WriteFile,
            OpCode::ReadLine => OpCode::ReadLine,
            OpCode::ReadChar => OpCode::ReadChar,
            OpCode::ReadInput => OpCode::ReadInput,
            OpCode::AppendFile => OpCode::AppendFile,
            OpCode::FileExists => OpCode::FileExists,
            OpCode::FileSize => OpCode::FileSize,
            OpCode::DeleteFile => OpCode::DeleteFile,
            OpCode::ListDir => OpCode::ListDir,
            OpCode::ReadBytes => OpCode::ReadBytes,
            OpCode::WriteBytes => OpCode::WriteBytes,
            OpCode::GetEnv => OpCode::GetEnv,
            OpCode::SetEnv => OpCode::SetEnv,
            OpCode::GetArgs => OpCode::GetArgs,
            OpCode::Exec => OpCode::Exec,
            OpCode::ExecCapture => OpCode::ExecCapture,
            OpCode::Exit => OpCode::Exit,
            OpCode::GetTime => OpCode::GetTime,
            OpCode::Sleep => OpCode::Sleep,
            OpCode::FormatTime => OpCode::FormatTime,
            OpCode::HttpGet => OpCode::HttpGet,
            OpCode::HttpPost => OpCode::HttpPost,
            OpCode::TcpConnect => OpCode::TcpConnect,
            OpCode::TcpListen => OpCode::TcpListen,
            OpCode::TcpSend => OpCode::TcpSend,
            OpCode::TcpRecv => OpCode::TcpRecv,
            OpCode::UdpBind => OpCode::UdpBind,
            OpCode::UdpSend => OpCode::UdpSend,
            OpCode::UdpRecv => OpCode::UdpRecv,
            OpCode::DnsResolve => OpCode::DnsResolve,
            OpCode::AsyncRead => OpCode::AsyncRead,
            OpCode::AsyncWrite => OpCode::AsyncWrite,
            OpCode::Await => OpCode::Await,
            OpCode::StreamCreate => OpCode::StreamCreate,
            OpCode::StreamRead => OpCode::StreamRead,
            OpCode::StreamWrite => OpCode::StreamWrite,
            OpCode::StreamClose => OpCode::StreamClose,
            OpCode::JsonParse => OpCode::JsonParse,
            OpCode::JsonStringify => OpCode::JsonStringify,
            OpCode::CsvParse => OpCode::CsvParse,
            OpCode::CsvWrite => OpCode::CsvWrite,
            OpCode::Compress => OpCode::Compress,
            OpCode::Decompress => OpCode::Decompress,
            OpCode::Encrypt => OpCode::Encrypt,
            OpCode::Decrypt => OpCode::Decrypt,
            OpCode::Hash => OpCode::Hash,
            OpCode::DbConnect => OpCode::DbConnect,
            OpCode::DbQuery => OpCode::DbQuery,
            OpCode::DbExec => OpCode::DbExec,
            OpCode::MakeObject => OpCode::MakeObject,
            OpCode::SetField(s) => OpCode::SetField(s.clone()),
            OpCode::GetField(s) => OpCode::GetField(s.clone()),
            OpCode::HasField(s) => OpCode::HasField(s.clone()),
            OpCode::DeleteField(s) => OpCode::DeleteField(s.clone()),
            OpCode::Keys => OpCode::Keys,
            OpCode::MakeFunction { addr, params } => OpCode::MakeFunction { addr: *addr, params: copy_strings(params) },
            OpCode::CallFunction => OpCode::CallFunction,
            OpCode::MakeLambda { addr, params } => OpCode::MakeLambda { addr: *addr, params: copy_strings(params) },
            OpCode::Capture(s) => OpCode::Capture(s.clone()),
            OpCode::Try { catch_addr } => OpCode::Try { catch_addr: *catch_addr },
            OpCode::Catch => OpCode::Catch,
            OpCode::Throw => OpCode::Throw,
            OpCode::EndTry => OpCode::EndTry,
            OpCode::Import(s) => OpCode::Import(s.clone()),
            OpCode::Export(s) => OpCode::Export(s.clone()),
            OpCode::Spawn => OpCode::Spawn,
            OpCode::Receive => OpCode::Receive,
            OpCode::ReceiveMatch(p) => OpCode::ReceiveMatch(copy_patterns(p)),
            OpCode::Yield => OpCode::Yield,
            OpCode::Send(x) => OpCode::Send(*x),
            OpCode::Monitor(x) => OpCode::Monitor(*x),
            OpCode::Demonitor(s) => OpCode::Demonitor(s.clone()),
            OpCode::Link(x) => OpCode::Link(*x),
            OpCode::Unlink(x) => OpCode::Unlink(*x),
            OpCode::TrapExit => OpCode::TrapExit,
            OpCode::Register(s) => OpCode::Register(s.clone()),
            OpCode::Unregister(s) => OpCode::Unregister(s.clone()),
            OpCode::Whereis(s) => OpCode::Whereis(s.clone()),
            OpCode::SendNamed(s) => OpCode::SendNamed(s.clone()),
            OpCode::StartSupervisor => OpCode::StartSupervisor,
            OpCode::SuperviseChild(s) => OpCode::SuperviseChild(s.clone()),
            OpCode::RestartChild(s) => OpCode::RestartChild(s.clone()),
        }
    }
}

/// The models of a sequence of instructions.
pub open spec fn program_model(s: Seq<OpCode>) -> Seq<OpCodeModel> {
    Seq::new(s.len(), |i: int| opcode_model(s[i]))
}

/// A copy of a program with the same instructions.
pub fn copy_program(v: &Vec<OpCode>) -> (r: Vec<OpCode>)
    ensures
        program_model(r@) == program_model(v@),
{
    let mut r: Vec<OpCode> = Vec::new();
    let mut i: usize = 0;
    while i < v.len()
        invariant
            i <= v@.len(),
            r@.len() == i,
            forall|j: int| 0 <= j < i ==> opcode_model(#[trigger] r@[j]) == opcode_model(v@[j]),
        decreases v.len() - i,
    {
        r.push(v[i].copy());
        i = i + 1;
    }
    assert(program_model(r@) =~= program_model(v@));
    r
}

} // verus!
