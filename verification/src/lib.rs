//! Builds shell-like commands from template strings and describes how they run.
//!
//! The command macros are modelled by [`expand::cmd`], [`expand::arg`] and
//! [`expand::args`]: functions from the macro's input tokens to the tokens of
//! the code that builds the command. [`cmd::Cmd`] holds what a command is made
//! of and how it is shown; running it is left to the caller.

pub mod arg;
pub mod cmd;
pub mod env;
pub mod eval;
pub mod error;
pub mod expand;
pub mod laws;
pub mod plumbing;
pub mod stdio;
pub mod template;
pub mod text;
pub mod tokens;

pub use crate::cmd::{Args, ArgsIntoIter, Cmd};
pub use crate::error::{Error, ErrorKind};
pub use crate::stdio::{Input, Output};
