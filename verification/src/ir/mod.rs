//! The register-based intermediate representation: instructions over
//! numbered registers, grouped in a block.
pub mod agreement;
pub mod lowering;
pub mod vm;

use vstd::prelude::*;
use crate::vm::opcode::{MessagePattern, PatternModel, patterns_model, copy_patterns};
use crate::vm::value::{Value, ValueModel, strings_model, copy_strings};
use crate::text::str_eq;

verus! {

/// A register number.
pub type RegId = u32;

/// A variable name.
pub type VarId = String;

/// A function address.
pub type FnId = usize;

/// An operand of a move: a constant or a register.
#[derive(Debug, PartialEq)]
pub enum RegValue {
    Const(Value),
    Reg(RegId),
}

/// The model of a move operand.
pub enum RegValueModel {
    Const(ValueModel),
    Reg(u32),
}

impl View for RegValue {
    type V = RegValueModel;

    open spec fn view(&self) -> RegValueModel {
        match self {
            RegValue::Const(v) => RegValueModel::Const(v@),
            RegValue::Reg(r) => RegValueModel::Reg(*r),
        }
    }
}

impl RegValue {
    /// A copy with the same model.
    pub fn copy(&self) -> (r: RegValue)
        ensures
            r@ == self@,
    {
        match self {
            RegValue::Const(v) => RegValue::Const(v.copy()),
            RegValue::Reg(r) => RegValue::Reg(*r),
        }
    }
}

/// A copy of a vector of register numbers.
pub fn copy_regs(v: &Vec<RegId>) -> (r: Vec<RegId>)
    ensures
        r@ == v@,
{
    let mut r: Vec<RegId> = Vec::new();
    let mut i: usize = 0;
    while i < v.len()
        invariant
            i <= v.len(),
            r@ == v@.subrange(0, i as int),
        decreases v.len() - i,
    {
        r.push(v[i]);
        i = i + 1;
    }
    assert(r@ == v@);
    r
}

/// An instruction of the register machine.
#[derive(Debug, PartialEq)]
pub enum RegInstr {
    Mov(RegId, RegValue),
    Add(RegId, RegId, RegId),
    AddF(RegId, RegId, RegId),
    Sub(RegId, RegId, RegId),
    SubF(RegId, RegId, RegId),
    Mul(RegId, RegId, RegId),
    MulF(RegId, RegId, RegId),
    Div(RegId, RegId, RegId),
    DivF(RegId, RegId, RegId),
    Concat(RegId, RegId, RegId),
    Eq(RegId, RegId, RegId),
    Ne(RegId, RegId, RegId),
    Lt(RegId, RegId, RegId),
    Le(RegId, RegId, RegId),
    Gt(RegId, RegId, RegId),
    Ge(RegId, RegId, RegId),
    EqF(RegId, RegId, RegId),
    NeF(RegId, RegId, RegId),
    LtF(RegId, RegId, RegId),
    LeF(RegId, RegId, RegId),
    GtF(RegId, RegId, RegId),
    GeF(RegId, RegId, RegId),
    And(RegId, RegId, RegId),
    Or(RegId, RegId, RegId),
    Not(RegId, RegId),
    Load(RegId, String),
    Store(String, RegId),
    Call(Option<RegId>, usize, Vec<RegId>),
    Ret(Option<RegId>),
    Jmp(usize),
    Jz(RegId, usize),
    Print(RegId),
    Len(RegId, RegId),
    Index(RegId, RegId, RegId),
    MakeList(RegId, Vec<RegId>),
    MakeObject(RegId),
    SetField(RegId, String, RegId),
    GetField(RegId, RegId, String),
    HasField(RegId, RegId, String),
    DeleteField(RegId, String),
    Keys(RegId, RegId),
    MakeFunction(RegId, usize, Vec<String>),
    CallFunction(Option<RegId>, RegId, Vec<RegId>),
    MakeLambda(RegId, usize, Vec<String>),
    Capture(String, RegId),
    Try(usize),
    Catch(RegId),
    Throw(RegId),
    EndTry,
    Import(RegId, String),
    Export(String, RegId),
    Spawn(RegId, RegId),
    Receive(RegId),
    ReceiveMatch(RegId, Vec<MessagePattern>),
    Yield,
    Send(RegId, RegId),
    Monitor(RegId, RegId),
    Demonitor(RegId),
    Link(RegId),
    Unlink(RegId),
    TrapExit(RegId),
    Register(String, RegId),
    Unregister(String),
    Whereis(RegId, String),
    SendNamed(String, RegId),
    StartSupervisor(RegId),
    SuperviseChild(String, RegId),
    RestartChild(String),
    ReadFile(RegId, RegId),
    WriteFile(RegId, RegId),
    ReadLine(RegId),
    ReadChar(RegId),
    ReadInput(RegId),
    AppendFile(RegId, RegId),
    FileExists(RegId, RegId),
    FileSize(RegId, RegId),
    DeleteFile(RegId),
    ListDir(RegId, RegId),
    ReadBytes(RegId, RegId),
    WriteBytes(RegId, RegId),
    GetEnv(RegId, RegId),
    SetEnv(RegId, RegId),
    GetArgs(RegId),
    Exec(RegId, RegId),
    ExecCapture(RegId, RegId),
    Exit(RegId),
    GetTime(RegId),
    Sleep(RegId),
    FormatTime(RegId, RegId, RegId),
    HttpGet(RegId, RegId),
    HttpPost(RegId, RegId, RegId),
    TcpConnect(RegId, RegId, RegId),
    TcpListen(RegId, RegId),
    TcpSend(RegId, RegId),
    TcpRecv(RegId, RegId),
    UdpBind(RegId, RegId),
    UdpSend(RegId, RegId, RegId),
    UdpRecv(RegId, RegId),
    DnsResolve(RegId, RegId),
    AsyncRead(RegId, RegId),
    AsyncWrite(RegId, RegId),
    Await(RegId, RegId),
    StreamCreate(RegId),
    StreamRead(RegId, RegId),
    StreamWrite(RegId, RegId),
    StreamClose(RegId),
    JsonParse(RegId, RegId),
    JsonStringify(RegId, RegId),
    CsvParse(RegId, RegId),
    CsvWrite(RegId, RegId),
    Compress(RegId, RegId),
    Decompress(RegId, RegId),
    Encrypt(RegId, RegId, RegId),
    Decrypt(RegId, RegId, RegId),
    Hash(RegId, RegId),
    DbConnect(RegId, RegId),
    DbQuery(RegId, RegId, RegId),
    DbExec(RegId, RegId),
    DumpScope(RegId),
    Delete(String),
    True(RegId),
    False(RegId),
    Null(RegId),
    Halt,
    Nop,
}

/// The model of a register instruction: strings are character sequences
/// and vectors are sequences.
pub enum RegInstrModel {
    Mov(u32, RegValueModel),
    Add(u32, u32, u32),
    AddF(u32, u32, u32),
    Sub(u32, u32, u32),
    SubF(u32, u32, u32),
    Mul(u32, u32, u32),
    MulF(u32, u32, u32),
    Div(u32, u32, u32),
    DivF(u32, u32, u32),
    Concat(u32, u32, u32),
    Eq(u32, u32, u32),
    Ne(u32, u32, u32),
    Lt(u32, u32, u32),
    Le(u32, u32, u32),
    Gt(u32, u32, u32),
    Ge(u32, u32, u32),
    EqF(u32, u32, u32),
    NeF(u32, u32, u32),
    LtF(u32, u32, u32),
    LeF(u32, u32, u32),
    GtF(u32, u32, u32),
    GeF(u32, u32, u32),
    And(u32, u32, u32),
    Or(u32, u32, u32),
    Not(u32, u32),
    Load(u32, Seq<char>),
    Store(Seq<char>, u32),
    Call(Option<u32>, usize, Seq<u32>),
    Ret(Option<u32>),
    Jmp(usize),
    Jz(u32, usize),
    Print(u32),
    Len(u32, u32),
    Index(u32, u32, u32),
    MakeList(u32, Seq<u32>),
    MakeObject(u32),
    SetField(u32, Seq<char>, u32),
    GetField(u32, u32, Seq<char>),
    HasField(u32, u32, Seq<char>),
    DeleteField(u32, Seq<char>),
    Keys(u32, u32),
    MakeFunction(u32, usize, Seq<Seq<char>>),
    CallFunction(Option<u32>, u32, Seq<u32>),
    MakeLambda(u32, usize, Seq<Seq<char>>),
    Capture(Seq<char>, u32),
    Try(usize),
    Catch(u32),
    Throw(u32),
    EndTry,
    Import(u32, Seq<char>),
    Export(Seq<char>, u32),
    Spawn(u32, u32),
    Receive(u32),
    ReceiveMatch(u32, Seq<PatternModel>),
    Yield,
    Send(u32, u32),
    Monitor(u32, u32),
    Demonitor(u32),
    Link(u32),
    Unlink(u32),
    TrapExit(u32),
    Register(Seq<char>, u32),
    Unregister(Seq<char>),
    Whereis(u32, Seq<char>),
    SendNamed(Seq<char>, u32),
    StartSupervisor(u32),
    SuperviseChild(Seq<char>, u32),
    RestartChild(Seq<char>),
    ReadFile(u32, u32),
    WriteFile(u32, u32),
    ReadLine(u32),
    ReadChar(u32),
    ReadInput(u32),
    AppendFile(u32, u32),
    FileExists(u32, u32),
    FileSize(u32, u32),
    DeleteFile(u32),
    ListDir(u32, u32),
    ReadBytes(u32, u32),
    WriteBytes(u32, u32),
    GetEnv(u32, u32),
    SetEnv(u32, u32),
    GetArgs(u32),
    Exec(u32, u32),
    ExecCapture(u32, u32),
    Exit(u32),
    GetTime(u32),
    Sleep(u32),
    FormatTime(u32, u32, u32),
    HttpGet(u32, u32),
    HttpPost(u32, u32, u32),
    TcpConnect(u32, u32, u32),
    TcpListen(u32, u32),
    TcpSend(u32, u32),
    TcpRecv(u32, u32),
    UdpBind(u32, u32),
    UdpSend(u32, u32, u32),
    UdpRecv(u32, u32),
    DnsResolve(u32, u32),
    AsyncRead(u32, u32),
    AsyncWrite(u32, u32),
    Await(u32, u32),
    StreamCreate(u32),
    StreamRead(u32, u32),
    StreamWrite(u32, u32),
    StreamClose(u32),
    JsonParse(u32, u32),
    JsonStringify(u32, u32),
    CsvParse(u32, u32),
    CsvWrite(u32, u32),
    Compress(u32, u32),
    Decompress(u32, u32),
    Encrypt(u32, u32, u32),
    Decrypt(u32, u32, u32),
    Hash(u32, u32),
    DbConnect(u32, u32),
    DbQuery(u32, u32, u32),
    DbExec(u32, u32),
    DumpScope(u32),
    Delete(Seq<char>),
    True(u32),
    False(u32),
    Null(u32),
    Halt,
    Nop,
}

impl View for RegInstr {
    type V = RegInstrModel;

    open spec fn view(&self) -> RegInstrModel {
        match self {
            RegInstr::Mov(x0, x1) => RegInstrModel::Mov(*x0, x1@),
            RegInstr::Add(x0, x1, x2) => RegInstrModel::Add(*x0, *x1, *x2),
            RegInstr::AddF(x0, x1, x2) => RegInstrModel::AddF(*x0, *x1, *x2),
            RegInstr::Sub(x0, x1, x2) => RegInstrModel::Sub(*x0, *x1, *x2),
            RegInstr::SubF(x0, x1, x2) => RegInstrModel::SubF(*x0, *x1, *x2),
            RegInstr::Mul(x0, x1, x2) => RegInstrModel::Mul(*x0, *x1, *x2),
            RegInstr::MulF(x0, x1, x2) => RegInstrModel::MulF(*x0, *x1, *x2),
            RegInstr::Div(x0, x1, x2) => RegInstrModel::Div(*x0, *x1, *x2),
            RegInstr::DivF(x0, x1, x2) => RegInstrModel::DivF(*x0, *x1, *x2),
            RegInstr::Concat(x0, x1, x2) => RegInstrModel::Concat(*x0, *x1, *x2),
            RegInstr::Eq(x0, x1, x2) => RegInstrModel::Eq(*x0, *x1, *x2),
            RegInstr::Ne(x0, x1, x2) => RegInstrModel::Ne(*x0, *x1, *x2),
            RegInstr::Lt(x0, x1, x2) => RegInstrModel::Lt(*x0, *x1, *x2),
            RegInstr::Le(x0, x1, x2) => RegInstrModel::Le(*x0, *x1, *x2),
            RegInstr::Gt(x0, x1, x2) => RegInstrModel::Gt(*x0, *x1, *x2),
            RegInstr::Ge(x0, x1, x2) => RegInstrModel::Ge(*x0, *x1, *x2),
            RegInstr::EqF(x0, x1, x2) => RegInstrModel::EqF(*x0, *x1, *x2),
            RegInstr::NeF(x0, x1, x2) => RegInstrModel::NeF(*x0, *x1, *x2),
            RegInstr::LtF(x0, x1, x2) => RegInstrModel::LtF(*x0, *x1, *x2),
            RegInstr::LeF(x0, x1, x2) => RegInstrModel::LeF(*x0, *x1, *x2),
            RegInstr::GtF(x0, x1, x2) => RegInstrModel::GtF(*x0, *x1, *x2),
            RegInstr::GeF(x0, x1, x2) => RegInstrModel::GeF(*x0, *x1, *x2),
            RegInstr::And(x0, x1, x2) => RegInstrModel::And(*x0, *x1, *x2),
            RegInstr::Or(x0, x1, x2) => RegInstrModel::Or(*x0, *x1, *x2),
            RegInstr::Not(x0, x1) => RegInstrModel::Not(*x0, *x1),
            RegInstr::Load(x0, x1) => RegInstrModel::Load(*x0, x1@),
            RegInstr::Store(x0, x1) => RegInstrModel::Store(x0@, *x1),
            RegInstr::Call(x0, x1, x2) => RegInstrModel::Call(*x0, *x1, x2@),
            RegInstr::Ret(x0) => RegInstrModel::Ret(*x0),
            RegInstr::Jmp(x0) => RegInstrModel::Jmp(*x0),
            RegInstr::Jz(x0, x1) => RegInstrModel::Jz(*x0, *x1),
            RegInstr::Print(x0) => RegInstrModel::Print(*x0),
            RegInstr::Len(x0, x1) => RegInstrModel::Len(*x0, *x1),
            RegInstr::Index(x0, x1, x2) => RegInstrModel::Index(*x0, *x1, *x2),
            RegInstr::MakeList(x0, x1) => RegInstrModel::MakeList(*x0, x1@),
            RegInstr::MakeObject(x0) => RegInstrModel::MakeObject(*x0),
            RegInstr::SetField(x0, x1, x2) => RegInstrModel::SetField(*x0, x1@, *x2),
            RegInstr::GetField(x0, x1, x2) => RegInstrModel::GetField(*x0, *x1, x2@),
            RegInstr::HasField(x0, x1, x2) => RegInstrModel::HasField(*x0, *x1, x2@),
            RegInstr::DeleteField(x0, x1) => RegInstrModel::DeleteField(*x0, x1@),
            RegInstr::Keys(x0, x1) => RegInstrModel::Keys(*x0, *x1),
            RegInstr::MakeFunction(x0, x1, x2) => RegInstrModel::MakeFunction(*x0, *x1, strings_model(x2@)),
            RegInstr::CallFunction(x0, x1, x2) => RegInstrModel::CallFunction(*x0, *x1, x2@),
            RegInstr::MakeLambda(x0, x1, x2) => RegInstrModel::MakeLambda(*x0, *x1, strings_model(x2@)),
            RegInstr::Capture(x0, x1) => RegInstrModel::Capture(x0@, *x1),
            RegInstr::Try(x0) => RegInstrModel::Try(*x0),
            RegInstr::Catch(x0) => RegInstrModel::Catch(*x0),
            RegInstr::Throw(x0) => RegInstrModel::Throw(*x0),
            RegInstr::EndTry => RegInstrModel::EndTry,
            RegInstr::Import(x0, x1) => RegInstrModel::Import(*x0, x1@),
            RegInstr::Export(x0, x1) => RegInstrModel::Export(x0@, *x1),
            RegInstr::Spawn(x0, x1) => RegInstrModel::Spawn(*x0, *x1),
            RegInstr::Receive(x0) => RegInstrModel::Receive(*x0),
            RegInstr::ReceiveMatch(x0, x1) => RegInstrModel::ReceiveMatch(*x0, patterns_model(x1@)),
            RegInstr::Yield => RegInstrModel::Yield,
            RegInstr::Send(x0, x1) => RegInstrModel::Send(*x0, *x1),
            RegInstr::Monitor(x0, x1) => RegInstrModel::Monitor(*x0, *x1),
            RegInstr::Demonitor(x0) => RegInstrModel::Demonitor(*x0),
            RegInstr::Link(x0) => RegInstrModel::Link(*x0),
            RegInstr::Unlink(x0) => RegInstrModel::Unlink(*x0),
            RegInstr::TrapExit(x0) => RegInstrModel::TrapExit(*x0),
            RegInstr::Register(x0, x1) => RegInstrModel::Register(x0@, *x1),
            RegInstr::Unregister(x0) => RegInstrModel::Unregister(x0@),
            RegInstr::Whereis(x0, x1) => RegInstrModel::Whereis(*x0, x1@),
            RegInstr::SendNamed(x0, x1) => RegInstrModel::SendNamed(x0@, *x1),
            RegInstr::StartSupervisor(x0) => RegInstrModel::StartSupervisor(*x0),
            RegInstr::SuperviseChild(x0, x1) => RegInstrModel::SuperviseChild(x0@, *x1),
            RegInstr::RestartChild(x0) => RegInstrModel::RestartChild(x0@),
            RegInstr::ReadFile(x0, x1) => RegInstrModel::ReadFile(*x0, *x1),
            RegInstr::WriteFile(x0, x1) => RegInstrModel::WriteFile(*x0, *x1),
            RegInstr::ReadLine(x0) => RegInstrModel::ReadLine(*x0),
            RegInstr::ReadChar(x0) => RegInstrModel::ReadChar(*x0),
            RegInstr::ReadInput(x0) => RegInstrModel::ReadInput(*x0),
            RegInstr::AppendFile(x0, x1) => RegInstrModel::AppendFile(*x0, *x1),
            RegInstr::FileExists(x0, x1) => RegInstrModel::FileExists(*x0, *x1),
            RegInstr::FileSize(x0, x1) => RegInstrModel::FileSize(*x0, *x1),
            RegInstr::DeleteFile(x0) => RegInstrModel::DeleteFile(*x0),
            RegInstr::ListDir(x0, x1) => RegInstrModel::ListDir(*x0, *x1),
            RegInstr::ReadBytes(x0, x1) => RegInstrModel::ReadBytes(*x0, *x1),
            RegInstr::WriteBytes(x0, x1) => RegInstrModel::WriteBytes(*x0, *x1),
            RegInstr::GetEnv(x0, x1) => RegInstrModel::GetEnv(*x0, *x1),
            RegInstr::SetEnv(x0, x1) => RegInstrModel::SetEnv(*x0, *x1),
            RegInstr::GetArgs(x0) => RegInstrModel::GetArgs(*x0),
            RegInstr::Exec(x0, x1) => RegInstrModel::Exec(*x0, *x1),
            RegInstr::ExecCapture(x0, x1) => RegInstrModel::ExecCapture(*x0, *x1),
            RegInstr::Exit(x0) => RegInstrModel::Exit(*x0),
            RegInstr::GetTime(x0) => RegInstrModel::GetTime(*x0),
            RegInstr::Sleep(x0) => RegInstrModel::Sleep(*x0),
            RegInstr::FormatTime(x0, x1, x2) => RegInstrModel::FormatTime(*x0, *x1, *x2),
            RegInstr::HttpGet(x0, x1) => RegInstrModel::HttpGet(*x0, *x1),
            RegInstr::HttpPost(x0, x1, x2) => RegInstrModel::HttpPost(*x0, *x1, *x2),
            RegInstr::TcpConnect(x0, x1, x2) => RegInstrModel::TcpConnect(*x0, *x1, *x2),
            RegInstr::TcpListen(x0, x1) => RegInstrModel::TcpListen(*x0, *x1),
            RegInstr::TcpSend(x0, x1) => RegInstrModel::TcpSend(*x0, *x1),
            RegInstr::TcpRecv(x0, x1) => RegInstrModel::TcpRecv(*x0, *x1),
            RegInstr::UdpBind(x0, x1) => RegInstrModel::UdpBind(*x0, *x1),
            RegInstr::UdpSend(x0, x1, x2) => RegInstrModel::UdpSend(*x0, *x1, *x2),
            RegInstr::UdpRecv(x0, x1) => RegInstrModel::UdpRecv(*x0, *x1),
            RegInstr::DnsResolve(x0, x1) => RegInstrModel::DnsResolve(*x0, *x1),
            RegInstr::AsyncRead(x0, x1) => RegInstrModel::AsyncRead(*x0, *x1),
            RegInstr::AsyncWrite(x0, x1) => RegInstrModel::AsyncWrite(*x0, *x1),
            RegInstr::Await(x0, x1) => RegInstrModel::Await(*x0, *x1),
            RegInstr::StreamCreate(x0) => RegInstrModel::StreamCreate(*x0),
            RegInstr::StreamRead(x0, x1) => RegInstrModel::StreamRead(*x0, *x1),
            RegInstr::StreamWrite(x0, x1) => RegInstrModel::StreamWrite(*x0, *x1),
            RegInstr::StreamClose(x0) => RegInstrModel::StreamClose(*x0),
            RegInstr::JsonParse(x0, x1) => RegInstrModel::JsonParse(*x0, *x1),
            RegInstr::JsonStringify(x0, x1) => RegInstrModel::JsonStringify(*x0, *x1),
            RegInstr::CsvParse(x0, x1) => RegInstrModel::CsvParse(*x0, *x1),
            RegInstr::CsvWrite(x0, x1) => RegInstrModel::CsvWrite(*x0, *x1),
            RegInstr::Compress(x0, x1) => RegInstrModel::Compress(*x0, *x1),
            RegInstr::Decompress(x0, x1) => RegInstrModel::Decompress(*x0, *x1),
            RegInstr::Encrypt(x0, x1, x2) => RegInstrModel::Encrypt(*x0, *x1, *x2),
            RegInstr::Decrypt(x0, x1, x2) => RegInstrModel::Decrypt(*x0, *x1, *x2),
            RegInstr::Hash(x0, x1) => RegInstrModel::Hash(*x0, *x1),
            RegInstr::DbConnect(x0, x1) => RegInstrModel::DbConnect(*x0, *x1),
            RegInstr::DbQuery(x0, x1, x2) => RegInstrModel::DbQuery(*x0, *x1, *x2),
            RegInstr::DbExec(x0, x1) => RegInstrModel::DbExec(*x0, *x1),
            RegInstr::DumpScope(x0) => RegInstrModel::DumpScope(*x0),
            RegInstr::Delete(x0) => RegInstrModel::Delete(x0@),
            RegInstr::True(x0) => RegInstrModel::True(*x0),
            RegInstr::False(x0) => RegInstrModel::False(*x0),
            RegInstr::Null(x0) => RegInstrModel::Null(*x0),
            RegInstr::Halt => RegInstrModel::Halt,
            RegInstr::Nop => RegInstrModel::Nop,
        }
    }
}

impl RegInstr {
    /// A copy of the instruction with the same model.
    pub fn copy(&self) -> (r: RegInstr)
        ensures
            r@ == self@,
    {
        match self {
            RegInstr::Mov(x0, x1) => RegInstr::Mov(*x0, x1.copy()),
            RegInstr::Add(x0, x1, x2) => RegInstr::Add(*x0, *x1, *x2),
            RegInstr::AddF(x0, x1, x2) => RegInstr::AddF(*x0, *x1, *x2),
            RegInstr::Sub(x0, x1, x2) => RegInstr::Sub(*x0, *x1, *x2),
            RegInstr::SubF(x0, x1, x2) => RegInstr::SubF(*x0, *x1, *x2),
            RegInstr::Mul(x0, x1, x2) => RegInstr::Mul(*x0, *x1, *x2),
            RegInstr::MulF(x0, x1, x2) => RegInstr::MulF(*x0, *x1, *x2),
            RegInstr::Div(x0, x1, x2) => RegInstr::Div(*x0, *x1, *x2),
            RegInstr::DivF(x0, x1, x2) => RegInstr::DivF(*x0, *x1, *x2),
            RegInstr::Concat(x0, x1, x2) => RegInstr::Concat(*x0, *x1, *x2),
            RegInstr::Eq(x0, x1, x2) => RegInstr::Eq(*x0, *x1, *x2),
            RegInstr::Ne(x0, x1, x2) => RegInstr::Ne(*x0, *x1, *x2),
            RegInstr::Lt(x0, x1, x2) => RegInstr::Lt(*x0, *x1, *x2),
            RegInstr::Le(x0, x1, x2) => RegInstr::Le(*x0, *x1, *x2),
            RegInstr::Gt(x0, x1, x2) => RegInstr::Gt(*x0, *x1, *x2),
            RegInstr::Ge(x0, x1, x2) => RegInstr::Ge(*x0, *x1, *x2),
            RegInstr::EqF(x0, x1, x2) => RegInstr::EqF(*x0, *x1, *x2),
            RegInstr::NeF(x0, x1, x2) => RegInstr::NeF(*x0, *x1, *x2),
            RegInstr::LtF(x0, x1, x2) => RegInstr::LtF(*x0, *x1, *x2),
            RegInstr::LeF(x0, x1, x2) => RegInstr::LeF(*x0, *x1, *x2),
            RegInstr::GtF(x0, x1, x2) => RegInstr::GtF(*x0, *x1, *x2),
            RegInstr::GeF(x0, x1, x2) => RegInstr::GeF(*x0, *x1, *x2),
            RegInstr::And(x0, x1, x2) => RegInstr::And(*x0, *x1, *x2),
            RegInstr::Or(x0, x1, x2) => RegInstr::Or(*x0, *x1, *x2),
            RegInstr::Not(x0, x1) => RegInstr::Not(*x0, *x1),
            RegInstr::Load(x0, x1) => RegInstr::Load(*x0, x1.clone()),
            RegInstr::Store(x0, x1) => RegInstr::Store(x0.clone(), *x1),
            RegInstr::Call(x0, x1, x2) => RegInstr::Call(*x0, *x1, copy_regs(x2)),
            RegInstr::Ret(x0) => RegInstr::Ret(*x0),
            RegInstr::Jmp(x0) => RegInstr::Jmp(*x0),
            RegInstr::Jz(x0, x1) => RegInstr::Jz(*x0, *x1),
            RegInstr::Print(x0) => RegInstr::Print(*x0),
            RegInstr::Len(x0, x1) => RegInstr::Len(*x0, *x1),
            RegInstr::Index(x0, x1, x2) => RegInstr::Index(*x0, *x1, *x2),
            RegInstr::MakeList(x0, x1) => RegInstr::MakeList(*x0, copy_regs(x1)),
            RegInstr::MakeObject(x0) => RegInstr::MakeObject(*x0),
            RegInstr::SetField(x0, x1, x2) => RegInstr::SetField(*x0, x1.clone(), *x2),
            RegInstr::GetField(x0, x1, x2) => RegInstr::GetField(*x0, *x1, x2.clone()),
            RegInstr::HasField(x0, x1, x2) => RegInstr::HasField(*x0, *x1, x2.clone()),
            RegInstr::DeleteField(x0, x1) => RegInstr::DeleteField(*x0, x1.clone()),
            RegInstr::Keys(x0, x1) => RegInstr::Keys(*x0, *x1),
            RegInstr::MakeFunction(x0, x1, x2) => RegInstr::MakeFunction(*x0, *x1, copy_strings(x2)),
            RegInstr::CallFunction(x0, x1, x2) => RegInstr::CallFunction(*x0, *x1, copy_regs(x2)),
            RegInstr::MakeLambda(x0, x1, x2) => RegInstr::MakeLambda(*x0, *x1, copy_strings(x2)),
            RegInstr::Capture(x0, x1) => RegInstr::Capture(x0.clone(), *x1),
            RegInstr::Try(x0) => RegInstr::Try(*x0),
            RegInstr::Catch(x0) => RegInstr::Catch(*x0),
            RegInstr::Throw(x0) => RegInstr::Throw(*x0),
            RegInstr::EndTry => RegInstr::EndTry,
            RegInstr::Import(x0, x1) => RegInstr::Import(*x0, x1.clone()),
            RegInstr::Export(x0, x1) => RegInstr::Export(x0.clone(), *x1),
            RegInstr::Spawn(x0, x1) => RegInstr::Spawn(*x0, *x1),
            RegInstr::Receive(x0) => RegInstr::Receive(*x0),
            RegInstr::ReceiveMatch(x0, x1) => RegInstr::ReceiveMatch(*x0, copy_patterns(x1)),
            RegInstr::Yield => RegInstr::Yield,
            RegInstr::Send(x0, x1) => RegInstr::Send(*x0, *x1),
            RegInstr::Monitor(x0, x1) => RegInstr::Monitor(*x0, *x1),
            RegInstr::Demonitor(x0) => RegInstr::Demonitor(*x0),
            RegInstr::Link(x0) => RegInstr::Link(*x0),
            RegInstr::Unlink(x0) => RegInstr::Unlink(*x0),
            RegInstr::TrapExit(x0) => RegInstr::TrapExit(*x0),
            RegInstr::Register(x0, x1) => RegInstr::Register(x0.clone(), *x1),
            RegInstr::Unregister(x0) => RegInstr::Unregister(x0.clone()),
            RegInstr::Whereis(x0, x1) => RegInstr::Whereis(*x0, x1.clone()),
            RegInstr::SendNamed(x0, x1) => RegInstr::SendNamed(x0.clone(), *x1),
            RegInstr::StartSupervisor(x0) => RegInstr::StartSupervisor(*x0),
            RegInstr::SuperviseChild(x0, x1) => RegInstr::SuperviseChild(x0.clone(), *x1),
            RegInstr::RestartChild(x0) => RegInstr::RestartChild(x0.clone()),
            RegInstr::ReadFile(x0, x1) => RegInstr::ReadFile(*x0, *x1),
            RegInstr::WriteFile(x0, x1) => RegInstr::WriteFile(*x0, *x1),
            RegInstr::ReadLine(x0) => RegInstr::ReadLine(*x0),
            RegInstr::ReadChar(x0) => RegInstr::ReadChar(*x0),
            RegInstr::ReadInput(x0) => RegInstr::ReadInput(*x0),
            RegInstr::AppendFile(x0, x1) => RegInstr::AppendFile(*x0, *x1),
            RegInstr::FileExists(x0, x1) => RegInstr::FileExists(*x0, *x1),
            RegInstr::FileSize(x0, x1) => RegInstr::FileSize(*x0, *x1),
            RegInstr::DeleteFile(x0) => RegInstr::DeleteFile(*x0),
            RegInstr::ListDir(x0, x1) => RegInstr::ListDir(*x0, *x1),
            RegInstr::ReadBytes(x0, x1) => RegInstr::ReadBytes(*x0, *x1),
            RegInstr::WriteBytes(x0, x1) => RegInstr::WriteBytes(*x0, *x1),
            RegInstr::GetEnv(x0, x1) => RegInstr::GetEnv(*x0, *x1),
            RegInstr::SetEnv(x0, x1) => RegInstr::SetEnv(*x0, *x1),
            RegInstr::GetArgs(x0) => RegInstr::GetArgs(*x0),
            RegInstr::Exec(x0, x1) => RegInstr::Exec(*x0, *x1),
            RegInstr::ExecCapture(x0, x1) => RegInstr::ExecCapture(*x0, *x1),
            RegInstr::Exit(x0) => RegInstr::Exit(*x0),
            RegInstr::GetTime(x0) => RegInstr::GetTime(*x0),
            RegInstr::Sleep(x0) => RegInstr::Sleep(*x0),
            RegInstr::FormatTime(x0, x1, x2) => RegInstr::FormatTime(*x0, *x1, *x2),
            RegInstr::HttpGet(x0, x1) => RegInstr::HttpGet(*x0, *x1),
            RegInstr::HttpPost(x0, x1, x2) => RegInstr::HttpPost(*x0, *x1, *x2),
            RegInstr::TcpConnect(x0, x1, x2) => RegInstr::TcpConnect(*x0, *x1, *x2),
            RegInstr::TcpListen(x0, x1) => RegInstr::TcpListen(*x0, *x1),
            RegInstr::TcpSend(x0, x1) => RegInstr::TcpSend(*x0, *x1),
            RegInstr::TcpRecv(x0, x1) => RegInstr::TcpRecv(*x0, *x1),
            RegInstr::UdpBind(x0, x1) => RegInstr::UdpBind(*x0, *x1),
            RegInstr::UdpSend(x0, x1, x2) => RegInstr::UdpSend(*x0, *x1, *x2),
            RegInstr::UdpRecv(x0, x1) => RegInstr::UdpRecv(*x0, *x1),
            RegInstr::DnsResolve(x0, x1) => RegInstr::DnsResolve(*x0, *x1),
            RegInstr::AsyncRead(x0, x1) => RegInstr::AsyncRead(*x0, *x1),
            RegInstr::AsyncWrite(x0, x1) => RegInstr::AsyncWrite(*x0, *x1),
            RegInstr::Await(x0, x1) => RegInstr::Await(*x0, *x1),
            RegInstr::StreamCreate(x0) => RegInstr::StreamCreate(*x0),
            RegInstr::StreamRead(x0, x1) => RegInstr::StreamRead(*x0, *x1),
            RegInstr::StreamWrite(x0, x1) => RegInstr::StreamWrite(*x0, *x1),
            RegInstr::StreamClose(x0) => RegInstr::StreamClose(*x0),
            RegInstr::JsonParse(x0, x1) => RegInstr::JsonParse(*x0, *x1),
            RegInstr::JsonStringify(x0, x1) => RegInstr::JsonStringify(*x0, *x1),
            RegInstr::CsvParse(x0, x1) => RegInstr::CsvParse(*x0, *x1),
            RegInstr::CsvWrite(x0, x1) => RegInstr::CsvWrite(*x0, *x1),
            RegInstr::Compress(x0, x1) => RegInstr::Compress(*x0, *x1),
            RegInstr::Decompress(x0, x1) => RegInstr::Decompress(*x0, *x1),
            RegInstr::Encrypt(x0, x1, x2) => RegInstr::Encrypt(*x0, *x1, *x2),
            RegInstr::Decrypt(x0, x1, x2) => RegInstr::Decrypt(*x0, *x1, *x2),
            RegInstr::Hash(x0, x1) => RegInstr::Hash(*x0, *x1),
            RegInstr::DbConnect(x0, x1) => RegInstr::DbConnect(*x0, *x1),
            RegInstr::DbQuery(x0, x1, x2) => RegInstr::DbQuery(*x0, *x1, *x2),
            RegInstr::DbExec(x0, x1) => RegInstr::DbExec(*x0, *x1),
            RegInstr::DumpScope(x0) => RegInstr::DumpScope(*x0),
            RegInstr::Delete(x0) => RegInstr::Delete(x0.clone()),
            RegInstr::True(x0) => RegInstr::True(*x0),
            RegInstr::False(x0) => RegInstr::False(*x0),
            RegInstr::Null(x0) => RegInstr::Null(*x0),
            RegInstr::Halt => RegInstr::Halt,
            RegInstr::Nop => RegInstr::Nop,
        }
    }
}


/// The models of a sequence of register instructions.
pub open spec fn instrs_model(s: Seq<RegInstr>) -> Seq<RegInstrModel> {
    Seq::new(s.len(), |i: int| s[i]@)
}

/// The register of a variable in a table of (name, register) entries.
pub open spec fn var_register(vars: Seq<(Seq<char>, u32)>, name: Seq<char>) -> Option<u32>
    decreases vars.len(),
{
    if vars.len() == 0 {
        None
    } else if vars.last().0 == name {
        Some(vars.last().1)
    } else {
        var_register(vars.drop_last(), name)
    }
}

/// The model of a variable table.
pub open spec fn var_table(v: Seq<(String, RegId)>) -> Seq<(Seq<char>, u32)> {
    Seq::new(v.len(), |i: int| (v[i].0@, v[i].1))
}

/// A block of register instructions: the instructions, the entry point,
/// the number of registers allocated, and the registers given to variables.
#[derive(Debug, PartialEq)]
pub struct RegBlock {
    pub instructions: Vec<RegInstr>,
    pub entry: usize,
    pub register_count: u32,
    pub variables: Vec<(String, RegId)>,
}

impl RegBlock {
    /// An empty block with no registers.
    pub fn new() -> (b: RegBlock)
        ensures
            b.instructions@.len() == 0,
            b.entry == 0,
            b.register_count == 0,
            b.variables@.len() == 0,
    {
        RegBlock { instructions: Vec::new(), entry: 0, register_count: 0, variables: Vec::new() }
    }

    /// Allocates a fresh register: the next number.
    pub fn alloc_register(&mut self) -> (r: RegId)
        requires
            old(self).register_count < u32::MAX,
        ensures
            r == old(self).register_count,
            final(self).register_count == old(self).register_count + 1,
            final(self).instructions@ == old(self).instructions@,
            final(self).entry == old(self).entry,
            final(self).variables@ == old(self).variables@,
    {
        let reg = self.register_count;
        self.register_count = self.register_count + 1;
        reg
    }

    /// Appends an instruction.
    pub fn add_instruction(&mut self, instr: RegInstr)
        ensures
            final(self).instructions@ == old(self).instructions@.push(instr),
            final(self).register_count == old(self).register_count,
            final(self).entry == old(self).entry,
            final(self).variables@ == old(self).variables@,
    {
        self.instructions.push(instr);
    }

    /// The register of a variable, allocating one on its first use.
    pub fn get_or_alloc_var(&mut self, var_name: &str) -> (r: RegId)
        requires
            var_register(var_table(old(self).variables@), var_name@) is None ==> old(self).register_count < u32::MAX,
        ensures
            match var_register(var_table(old(self).variables@), var_name@) {
                Some(reg) => r == reg && *final(self) == *old(self),
                None => {
                    &&& r == old(self).register_count
                    &&& final(self).register_count == old(self).register_count + 1
                    &&& var_table(final(self).variables@) == var_table(old(self).variables@).push((var_name@, r))
                    &&& final(self).instructions@ == old(self).instructions@
                    &&& final(self).entry == old(self).entry
                },
            },
            var_register(var_table(final(self).variables@), var_name@) == Some(r),
    {
        let ghost t = var_table(self.variables@);
        let mut k = self.variables.len();
        assert(t.take(k as int) =~= t);
        while k > 0
            invariant
                k <= self.variables@.len(),
                t == var_table(self.variables@),
                *self == *old(self),
                var_register(t.take(k as int), var_name@) == var_register(t, var_name@),
            decreases k,
        {
            assert(t.take(k as int).drop_last() =~= t.take(k - 1));
            assert(t.take(k as int).last() == t[k - 1]);
            if str_eq(self.variables[k - 1].0.as_str(), var_name) {
                return self.variables[k - 1].1;
            }
            k = k - 1;
        }
        let reg = self.alloc_register();
        self.variables.push((var_name.to_owned(), reg));
        assert(var_table(self.variables@) =~= t.push((var_name@, reg)));
        reg
    }
}

/// The simulated operand stack of the lowering: the registers that hold
/// the stack's values, bottom first.
pub struct StackState {
    stack: Vec<RegId>,
}

impl View for StackState {
    type V = Seq<u32>;

    closed spec fn view(&self) -> Seq<u32> {
        self.stack@
    }
}

impl StackState {
    /// An empty stack.
    pub fn new() -> (s: StackState)
        ensures
            s@ == Seq::<u32>::empty(),
    {
        StackState { stack: Vec::new() }
    }

    /// Pushes a register.
    pub fn push(&mut self, reg: RegId)
        ensures
            final(self)@ == old(self)@.push(reg),
    {
        self.stack.push(reg);
    }

    /// Pops the top register, if any.
    pub fn pop(&mut self) -> (r: Option<RegId>)
        ensures
            old(self)@.len() == 0 ==> r is None && final(self)@ == old(self)@,
            old(self)@.len() > 0 ==> r == Some(old(self)@.last()) && final(self)@ == old(self)@.drop_last(),
    {
        self.stack.pop()
    }

    /// The top register, if any.
    pub fn peek(&self) -> (r: Option<RegId>)
        ensures
            self@.len() == 0 ==> r is None,
            self@.len() > 0 ==> r == Some(self@.last()),
    {
        if self.stack.len() == 0 {
            None
        } else {
            Some(self.stack[self.stack.len() - 1])
        }
    }

    /// The number of registers on the stack.
    pub fn depth(&self) -> (n: usize)
        ensures
            n == self@.len(),
    {
        self.stack.len()
    }

    /// Whether the stack is empty.
    pub fn is_empty(&self) -> (b: bool)
        ensures
            b == (self@.len() == 0),
    {
        self.stack.len() == 0
    }
}

} // verus!
