//! Messages between processes.
use vstd::prelude::*;
use crate::vm::opcode::ProcId;
use crate::vm::value::{Value, ValueModel};

verus! {

/// A message in a process mailbox.
#[derive(Debug, PartialEq)]
pub enum Message {
    Value(Value),
    Signal(String),
    Exit(ProcId),
    /// A monitor request: the target process and the monitor reference.
    Monitor(ProcId, String),
    /// A down notice: the monitored process, the monitor reference and the
    /// exit reason.
    Down(ProcId, String, String),
    Link(ProcId),
    Unlink(ProcId),
    TrapExit(bool),
}

/// The model of a message.
pub enum MessageModel {
    Value(ValueModel),
    Signal(Seq<char>),
    Exit(u64),
    Monitor(u64, Seq<char>),
    Down(u64, Seq<char>, Seq<char>),
    Link(u64),
    Unlink(u64),
    TrapExit(bool),
}

impl View for Message {
    type V = MessageModel;

    open spec fn view(&self) -> MessageModel {
        match self {
            Message::Value(v) => MessageModel::Value(v@),
            Message::Signal(s) => MessageModel::Signal(s@),
            Message::Exit(p) => MessageModel::Exit(*p),
            Message::Monitor(p, r) => MessageModel::Monitor(*p, r@),
            Message::Down(p, r, why) => MessageModel::Down(*p, r@, why@),
            Message::Link(p) => MessageModel::Link(*p),
            Message::Unlink(p) => MessageModel::Unlink(*p),
            Message::TrapExit(b) => MessageModel::TrapExit(*b),
        }
    }
}

impl Message {
    /// A copy with the same model.
    pub fn copy(&self) -> (r: Message)
        ensures
            r@ == self@,
    {
        match self {
            Message::Value(v) => Message::Value(v.copy()),
            Message::Signal(s) => Message::Signal(s.clone()),
            Message::Exit(p) => Message::Exit(*p),
            Message::Monitor(p, r) => Message::Monitor(*p, r.clone()),
            Message::Down(p, r, why) => Message::Down(*p, r.clone(), why.clone()),
            Message::Link(p) => Message::Link(*p),
            Message::Unlink(p) => Message::Unlink(*p),
            Message::TrapExit(b) => Message::TrapExit(*b),
        }
    }
}

/// The models of a sequence of messages.
pub open spec fn messages_model(s: Seq<Message>) -> Seq<MessageModel> {
    Seq::new(s.len(), |i: int| s[i]@)
}

} // verus!
