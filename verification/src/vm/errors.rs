use vstd::prelude::*;
use crate::text::{append_chars, chars_of, nat_text, string_of, u64_text};

verus! {

/// An error of the virtual machine or of its program loader.
#[derive(Debug, PartialEq)]
pub enum VMError {
    StackUnderflow(String),
    TypeMismatch { expected: String, got: String, operation: String },
    UndefinedVariable(String),
    IndexOutOfBounds { index: usize, length: usize },
    CallStackUnderflow,
    NoVariableScope,
    FileError { filename: String, error: String },
    ParseError { line: usize, instruction: String },
    InsufficientStackItems { needed: usize, available: usize },
    UnknownLabel(String),
    UnsupportedOperation(String),
    RuntimeError(String),
    TypeError(String),
    DivisionByZero,
}


/// The model of an error: its strings as character sequences.
pub enum VMErrorModel {
    StackUnderflow(Seq<char>),
    TypeMismatch { expected: Seq<char>, got: Seq<char>, operation: Seq<char> },
    UndefinedVariable(Seq<char>),
    IndexOutOfBounds { index: usize, length: usize },
    CallStackUnderflow,
    NoVariableScope,
    FileError { filename: Seq<char>, error: Seq<char> },
    ParseError { line: usize, instruction: Seq<char> },
    InsufficientStackItems { needed: usize, available: usize },
    UnknownLabel(Seq<char>),
    UnsupportedOperation(Seq<char>),
    RuntimeError(Seq<char>),
    TypeError(Seq<char>),
    DivisionByZero,
}

impl View for VMError {
    type V = VMErrorModel;

    open spec fn view(&self) -> VMErrorModel {
        match self {
            VMError::StackUnderflow(s) => VMErrorModel::StackUnderflow(s@),
            VMError::TypeMismatch { expected, got, operation } => VMErrorModel::TypeMismatch {
                expected: expected@,
                got: got@,
                operation: operation@,
            },
            VMError::UndefinedVariable(s) => VMErrorModel::UndefinedVariable(s@),
            VMError::IndexOutOfBounds { index, length } => VMErrorModel::IndexOutOfBounds {
                index: *index,
                length: *length,
            },
            VMError::CallStackUnderflow => VMErrorModel::CallStackUnderflow,
            VMError::NoVariableScope => VMErrorModel::NoVariableScope,
            VMError::FileError { filename, error } => VMErrorModel::FileError {
                filename: filename@,
                error: error@,
            },
            VMError::ParseError { line, instruction } => VMErrorModel::ParseError {
                line: *line,
                instruction: instruction@,
            },
            VMError::InsufficientStackItems { needed, available } => VMErrorModel::InsufficientStackItems {
                needed: *needed,
                available: *available,
            },
            VMError::UnknownLabel(s) => VMErrorModel::UnknownLabel(s@),
            VMError::UnsupportedOperation(s) => VMErrorModel::UnsupportedOperation(s@),
            VMError::RuntimeError(s) => VMErrorModel::RuntimeError(s@),
            VMError::TypeError(s) => VMErrorModel::TypeError(s@),
            VMError::DivisionByZero => VMErrorModel::DivisionByZero,
        }
    }
}

/// An error that names the operation it happened in: a stack underflow.
pub fn underflow(operation: &str) -> (e: VMError)
    ensures
        e@ == VMErrorModel::StackUnderflow(operation@),
{
    VMError::StackUnderflow(operation.to_owned())
}

/// The result of a machine operation.
pub type VMResult<T> = Result<T, VMError>;


/// The text of an error, as the machine reports it.
pub open spec fn error_text(e: VMErrorModel) -> Seq<char> {
    match e {
        VMErrorModel::StackUnderflow(op) => "Stack underflow during "@ + op,
        VMErrorModel::TypeMismatch { expected, got, operation } => operation + " expects "@ + expected + " but got "@
            + got,
        VMErrorModel::UndefinedVariable(name) => "Undefined variable: "@ + name,
        VMErrorModel::IndexOutOfBounds { index, length } => "Index "@ + nat_text(index as nat)
            + " out of bounds for list of length "@ + nat_text(length as nat),
        VMErrorModel::CallStackUnderflow => "Call stack underflow"@,
        VMErrorModel::NoVariableScope => "No variable scope available"@,
        VMErrorModel::FileError { filename, error } => "File operation failed on "@ + filename + ": "@ + error,
        VMErrorModel::ParseError { line, instruction } => "Parse error on line "@ + nat_text(line as nat) + ": "@
            + instruction,
        VMErrorModel::InsufficientStackItems { needed, available } => "Need "@ + nat_text(needed as nat)
            + " stack items but only "@ + nat_text(available as nat) + " available"@,
        VMErrorModel::UnknownLabel(label) => "Unknown label: "@ + label,
        VMErrorModel::UnsupportedOperation(op) => "Unsupported operation: "@ + op,
        VMErrorModel::RuntimeError(msg) => "Runtime error: "@ + msg,
        VMErrorModel::TypeError(msg) => "Type error: "@ + msg,
        VMErrorModel::DivisionByZero => "Division by zero"@,
    }
}

fn text2(a: &str, b: &str) -> (r: Vec<char>)
    ensures
        r@ == a@ + b@,
{
    let mut t = chars_of(a);
    let u = chars_of(b);
    append_chars(&mut t, u.as_slice());
    t
}

fn push_str(t: &mut Vec<char>, s: &str)
    ensures
        final(t)@ == old(t)@ + s@,
{
    let u = chars_of(s);
    append_chars(t, u.as_slice());
}

fn push_number(t: &mut Vec<char>, n: usize)
    ensures
        final(t)@ == old(t)@ + nat_text(n as nat),
{
    let d = u64_text(n as u64);
    append_chars(t, d.as_slice());
}

impl VMError {
    /// The text of the error (what `Display` writes).
    pub fn message(&self) -> (r: String)
        ensures
            r@ == error_text(self@),
    {
        match self {
            VMError::StackUnderflow(op) => string_of(text2("Stack underflow during ", op.as_str()).as_slice()),
            VMError::TypeMismatch { expected, got, operation } => {
                let mut t = text2(operation.as_str(), " expects ");
                push_str(&mut t, expected.as_str());
                push_str(&mut t, " but got ");
                push_str(&mut t, got.as_str());
                string_of(t.as_slice())
            },
            VMError::UndefinedVariable(name) => string_of(text2("Undefined variable: ", name.as_str()).as_slice()),
            VMError::IndexOutOfBounds { index, length } => {
                let mut t = chars_of("Index ");
                push_number(&mut t, *index);
                push_str(&mut t, " out of bounds for list of length ");
                push_number(&mut t, *length);
                string_of(t.as_slice())
            },
            VMError::CallStackUnderflow => "Call stack underflow".to_owned(),
            VMError::NoVariableScope => "No variable scope available".to_owned(),
            VMError::FileError { filename, error } => {
                let mut t = text2("File operation failed on ", filename.as_str());
                push_str(&mut t, ": ");
                push_str(&mut t, error.as_str());
                string_of(t.as_slice())
            },
            VMError::ParseError { line, instruction } => {
                let mut t = chars_of("Parse error on line ");
                push_number(&mut t, *line);
                push_str(&mut t, ": ");
                push_str(&mut t, instruction.as_str());
                string_of(t.as_slice())
            },
            VMError::InsufficientStackItems { needed, available } => {
                let mut t = chars_of("Need ");
                push_number(&mut t, *needed);
                push_str(&mut t, " stack items but only ");
                push_number(&mut t, *available);
                push_str(&mut t, " available");
                string_of(t.as_slice())
            },
            VMError::UnknownLabel(label) => string_of(text2("Unknown label: ", label.as_str()).as_slice()),
            VMError::UnsupportedOperation(op) => string_of(text2("Unsupported operation: ", op.as_str()).as_slice()),
            VMError::RuntimeError(msg) => string_of(text2("Runtime error: ", msg.as_str()).as_slice()),
            VMError::TypeError(msg) => string_of(text2("Type error: ", msg.as_str()).as_slice()),
            VMError::DivisionByZero => "Division by zero".to_owned(),
        }
    }
}
} // verus!
