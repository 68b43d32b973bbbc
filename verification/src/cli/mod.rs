//! The command line of the `ttvm` program.
pub mod args;
