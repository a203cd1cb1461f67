//! The functions that the code generated by the macros calls.

use vstd::prelude::*;
use crate::arg::{ArgString, AsArg};
use crate::cmd::{Args, Cmd, CmdView};
use crate::env::EnvView;
use crate::stdio::StdioView;

verus! {

/// An empty string, to glue the pieces of an argument onto.
pub fn new_string() -> (r: ArgString)
    ensures
        r@ == Seq::<char>::empty(),
{
    ArgString::new()
}

/// A command that runs the program.
pub fn new_cmd<S: AsArg>(cmd: S) -> (r: Cmd)
    ensures
        r@ == (CmdView {
            program: cmd.arg_text(),
            args: Seq::empty(),
            env: EnvView { clear: false, vars: Map::empty() },
            cwd: None,
            stdio: StdioView { stdin: None, stdout: None, stderr: None },
        }),
{
    Cmd::new(cmd)
}

/// One argument.
pub fn new_arg<S: AsArg>(arg: S) -> (r: String)
    ensures
        r@ == arg.arg_text(),
{
    arg.to_arg()
}

/// An empty argument list.
pub fn new_args() -> (r: Args)
    ensures
        r@ == Seq::<Seq<char>>::empty(),
{
    Args::new()
}

} // verus!
