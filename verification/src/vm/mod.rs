pub mod env;
pub mod equality;
pub mod encoding;
pub mod errors;
pub mod import;
pub mod machine;
pub mod memory;
pub mod stack;
pub mod opcode;
pub mod relocate;
pub mod simulated;
pub mod value;

pub use errors::{VMError, VMResult};
pub use opcode::{MessagePattern, OpCode, ProcId};
pub use value::Value;
