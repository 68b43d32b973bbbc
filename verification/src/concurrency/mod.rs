//! Processes, messages, supervision and the process registry.
pub mod messages;
pub mod proc_model;
pub mod process;
pub mod registry;
pub mod supervisor;

pub use messages::Message;
