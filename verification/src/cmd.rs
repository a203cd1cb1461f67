//! Commands and argument lists, and how they are shown.

use vstd::prelude::*;
use crate::env::{env_clear, env_remove, env_set, Env, EnvView};
use crate::stdio::{
    is_captured_spec, is_collectable_spec, plan_spec, Input, Output, OutputKind, Stdio, StdioPlan,
    StdioView,
};
use crate::text::{debug_quote, os_debug_repr};
use crate::arg::{AsArg, AsArgs};

verus! {

/// Characters that an argument may show unquoted.
pub open spec fn is_plain_char(c: char) -> bool {
    let u = c as u32;
    ||| 0x61 <= u <= 0x7a
    ||| 0x41 <= u <= 0x5a
    ||| 0x30 <= u <= 0x39
    ||| c == '-' || c == '_' || c == '=' || c == '/' || c == ',' || c == '.' || c == '+'
}

/// An argument that is shown as it is: not empty, plain characters only.
pub open spec fn is_plain(s: Seq<char>) -> bool {
    s.len() > 0 && forall|i: int| 0 <= i < s.len() ==> is_plain_char(#[trigger] s[i])
}

/// How an argument is shown: as it is when plain, quoted otherwise.
pub open spec fn display_arg(s: Seq<char>) -> Seq<char> {
    if is_plain(s) {
        s
    } else {
        os_debug_repr(s)
    }
}

/// The arguments shown one after another, separated by single spaces.
pub open spec fn join_display(args: Seq<Seq<char>>) -> Seq<char>
    decreases args.len(),
{
    if args.len() == 0 {
        Seq::empty()
    } else if args.len() == 1 {
        display_arg(args[0])
    } else {
        join_display(args.drop_last()) + " "@ + display_arg(args.last())
    }
}

/// A command shown as `` `program arg1 arg2` ``.
pub open spec fn cmd_display(program: Seq<char>, args: Seq<Seq<char>>) -> Seq<char> {
    if args.len() == 0 {
        "`"@ + display_arg(program) + "`"@
    } else {
        "`"@ + display_arg(program) + " "@ + join_display(args) + "`"@
    }
}

/// An argument list shown as `` `arg1 arg2` ``.
pub open spec fn args_display(args: Seq<Seq<char>>) -> Seq<char> {
    "`"@ + join_display(args) + "`"@
}

fn is_plain_exec(s: &str) -> (r: bool)
    ensures
        r == is_plain(s@),
{
    let n = s.unicode_len();
    if n == 0 {
        return false;
    }
    let mut i: usize = 0;
    while i < n
        invariant
            n == s@.len(),
            i <= n,
            forall|j: int| 0 <= j < i ==> is_plain_char(#[trigger] s@[j]),
        decreases n - i,
    {
        let c = s.get_char(i);
        let u = c as u32;
        let ok = (0x61 <= u && u <= 0x7a) || (0x41 <= u && u <= 0x5a) || (0x30 <= u && u <= 0x39)
            || c == '-' || c == '_' || c == '=' || c == '/' || c == ',' || c == '.' || c == '+';
        if !ok {
            return false;
        }
        i += 1;
    }
    true
}

/// Appends how the argument is shown.
fn push_display_arg(out: &mut String, arg: &str)
    ensures
        final(out)@ == old(out)@ + display_arg(arg@),
{
    if is_plain_exec(arg) {
        out.append(arg);
    } else {
        let q = debug_quote(arg);
        out.append(q.as_str());
    }
}

/// Appends the arguments shown with single spaces between them.
fn push_display_content(out: &mut String, args: &Vec<String>)
    ensures
        final(out)@ == old(out)@ + join_display(strings_view(args@)),
{
    let ghost o0 = out@;
    let mut i: usize = 0;
    assert(strings_view(args@).take(0) =~= Seq::<Seq<char>>::empty());
    while i < args.len()
        invariant
            i <= args@.len(),
            out@ == o0 + join_display(strings_view(args@).take(i as int)),
        decreases args@.len() - i,
    {
        let ghost sv = strings_view(args@);
        assert(sv.take(i + 1).drop_last() =~= sv.take(i as int));
        assert(sv.take(i + 1).last() == args@[i as int]@);
        if i > 0 {
            out.append(" ");
        }
        push_display_arg(out, args[i].as_str());
        assert(out@ =~= o0 + join_display(sv.take(i + 1)));
        i += 1;
    }
    assert(strings_view(args@).take(i as int) =~= strings_view(args@));
}

pub open spec fn strings_view(v: Seq<String>) -> Seq<Seq<char>> {
    Seq::new(v.len(), |i: int| v[i]@)
}

/// A list of arguments. Can be appended to a [`Cmd`].
#[derive(Clone, Debug)]
pub struct Args {
    args: Vec<String>,
}

impl View for Args {
    type V = Seq<Seq<char>>;

    closed spec fn view(&self) -> Seq<Seq<char>> {
        strings_view(self.args@)
    }
}

impl Default for Args {
    fn default() -> (r: Self)
        ensures
            r@ == Seq::<Seq<char>>::empty(),
    {
        Args::new()
    }
}

impl Args {
    /// An empty list.
    pub fn new() -> (r: Self)
        ensures
            r@ == Seq::<Seq<char>>::empty(),
    {
        let r = Args { args: Vec::new() };
        assert(r@ =~= Seq::<Seq<char>>::empty());
        r
    }

    /// Appends an argument.
    pub fn arg<S: AsArg>(&mut self, arg: S) -> (r: &mut Self)
        ensures
            r@ == old(self)@.push(arg.arg_text()),
            *final(self) == *final(r),
    {
        self.args.push(arg.to_arg());
        assert(self@ =~= old(self)@.push(arg.arg_text()));
        self
    }

    /// Appends several arguments, in order.
    pub fn args<I: AsArgs>(&mut self, args: I) -> (r: &mut Self)
        ensures
            r@ == old(self)@ + args.args_text(),
            *final(self) == *final(r),
    {
        let items = args.to_args();
        let mut i: usize = 0;
        while i < items.len()
            invariant
                i <= items@.len(),
                items@.len() == args.args_text().len(),
                forall|j: int| 0 <= j < items@.len() ==> #[trigger] items@[j]@ == args.args_text()[j],
                self@ == old(self)@ + args.args_text().take(i as int),
            decreases items@.len() - i,
        {
            let a = items[i].clone();
            let ghost before = self.args@;
            self.args.push(a);
            assert(strings_view(self.args@) =~= strings_view(before).push(args.args_text()[i as int]));
            assert(args.args_text().take(i + 1) =~= args.args_text().take(i as int).push(args.args_text()[i as int]));
            assert(self@ =~= old(self)@ + args.args_text().take(i + 1));
            i += 1;
        }
        assert(args.args_text().take(i as int) =~= args.args_text());
        self
    }

    pub fn is_empty(&self) -> (r: bool)
        ensures
            r == (self@.len() == 0),
    {
        self.args.len() == 0
    }

    pub fn as_slice(&self) -> (r: &[String])
        ensures
            strings_view(r@) == self@,
    {
        self.args.as_slice()
    }

    /// The arguments shown with single spaces between them.
    pub fn display_content(&self) -> (r: String)
        ensures
            r@ == join_display(self@),
    {
        let mut out = String::new();
        push_display_content(&mut out, &self.args);
        assert(out@ =~= join_display(self@));
        out
    }

    /// The list shown as `` `arg1 arg2` `` (what `Display` gives).
    pub fn to_string(&self) -> (r: String)
        ensures
            r@ == args_display(self@),
    {
        let mut out = String::from_str("`");
        push_display_content(&mut out, &self.args);
        out.append("`");
        out
    }

    /// Iterates over the arguments by value.
    pub fn into_iter(self) -> (r: ArgsIntoIter)
        ensures
            r@ == self@,
    {
        let r = ArgsIntoIter { args: self.args, pos: 0 };
        assert(r@ =~= self@);
        r
    }
}

impl AsArgs for Args {
    open spec fn args_text(&self) -> Seq<Seq<char>> {
        self@
    }

    fn to_args(&self) -> (r: Vec<String>) {
        let r = self.args.clone();
        proof {
            assert forall|i: int| 0 <= i < r@.len() implies #[trigger] r@[i]@ == self.args_text()[i] by {
                assert(cloned::<String>(self.args@[i], r@[i]));
            }
        }
        r
    }
}

/// The arguments of an [`Args`], handed out in order.
pub struct ArgsIntoIter {
    args: Vec<String>,
    pos: usize,
}

impl View for ArgsIntoIter {
    /// The arguments not handed out yet.
    type V = Seq<Seq<char>>;

    closed spec fn view(&self) -> Seq<Seq<char>> {
        if self.pos <= self.args@.len() {
            strings_view(self.args@).skip(self.pos as int)
        } else {
            Seq::empty()
        }
    }
}

impl ArgsIntoIter {
    /// The next argument, or `None` at the end.
    pub fn next(&mut self) -> (r: Option<String>)
        ensures
            old(self)@.len() == 0 ==> r is None && final(self)@ == old(self)@,
            old(self)@.len() > 0 ==> (r matches Some(s) && s@ == old(self)@[0] && final(self)@
                == old(self)@.drop_first()),
    {
        if self.pos < self.args.len() {
            let s = self.args[self.pos].clone();
            assert(old(self)@[0] == self.args@[self.pos as int]@);
            self.pos = self.pos + 1;
            assert(self@ =~= old(self)@.drop_first());
            Some(s)
        } else {
            assert(old(self)@ =~= Seq::<Seq<char>>::empty());
            None
        }
    }
}

/// The value of a [`Cmd`].
pub struct CmdView {
    pub program: Seq<char>,
    pub args: Seq<Seq<char>>,
    pub env: EnvView,
    pub cwd: Option<Seq<char>>,
    pub stdio: StdioView,
}

/// A command: program, arguments, environment changes, working directory and
/// standard streams.
#[derive(Debug, Clone)]
pub struct Cmd {
    program: String,
    args: Args,
    env: Env,
    cwd: Option<String>,
    stdio: Stdio,
}

impl View for Cmd {
    type V = CmdView;

    closed spec fn view(&self) -> CmdView {
        CmdView {
            program: self.program@,
            args: self.args@,
            env: self.env@,
            cwd: match self.cwd {
                Option::Some(c) => Option::Some(c@),
                Option::None => Option::None,
            },
            stdio: self.stdio@,
        }
    }
}

impl Cmd {
    /// A new command that runs `program` with no arguments, the inherited
    /// environment, the current directory and default streams.
    pub fn new<S: AsArg>(program: S) -> (r: Self)
        ensures
            r@ == (CmdView {
                program: program.arg_text(),
                args: Seq::empty(),
                env: EnvView { clear: false, vars: Map::empty() },
                cwd: None,
                stdio: StdioView { stdin: None, stdout: None, stderr: None },
            }),
    {
        Cmd {
            program: program.to_arg(),
            args: Args::new(),
            env: Env::new(),
            cwd: None,
            stdio: Stdio::new(),
        }
    }

    /// Adds an argument to the command.
    pub fn arg<S: AsArg>(&mut self, arg: S) -> (r: &mut Self)
        ensures
            r@ == (CmdView { args: old(self)@.args.push(arg.arg_text()), ..old(self)@ }),
            *final(self) == *final(r),
    {
        self.args.arg(arg);
        self
    }

    /// Adds several arguments, in order.
    pub fn args<I: AsArgs>(&mut self, args: I) -> (r: &mut Self)
        ensures
            r@ == (CmdView { args: old(self)@.args + args.args_text(), ..old(self)@ }),
            *final(self) == *final(r),
    {
        self.args.args(args);
        self
    }

    /// Sets an environment variable for the command.
    pub fn env(&mut self, key: &str, value: &str) -> (r: &mut Self)
        ensures
            r@ == (CmdView { env: env_set(old(self)@.env, key@, value@), ..old(self)@ }),
            *final(self) == *final(r),
    {
        self.env.set(key, value);
        self
    }

    /// Removes an environment variable from the command's environment.
    pub fn env_remove(&mut self, key: &str) -> (r: &mut Self)
        ensures
            r@ == (CmdView { env: env_remove(old(self)@.env, key@), ..old(self)@ }),
            *final(self) == *final(r),
    {
        self.env.remove(key);
        self
    }

    /// Clears the environment: the command gets only the variables set after this.
    pub fn env_clear(&mut self) -> (r: &mut Self)
        ensures
            r@ == (CmdView { env: env_clear(), ..old(self)@ }),
            *final(self) == *final(r),
    {
        self.env.clear();
        self
    }

    /// Sets several environment variables, in order.
    pub fn envs(&mut self, vars: &[(&str, &str)]) -> (r: &mut Self)
        ensures
            r@ == (CmdView { env: env_set_all(old(self)@.env, vars@), ..old(self)@ }),
            *final(self) == *final(r),
    {
        let mut i: usize = 0;
        while i < vars.len()
            invariant
                i <= vars@.len(),
                self@ == (CmdView { env: env_set_all(old(self)@.env, vars@.take(i as int)), ..old(self)@ }),
            decreases vars@.len() - i,
        {
            let (k, v) = vars[i];
            self.env.set(k, v);
            assert(vars@.take(i + 1).drop_last() =~= vars@.take(i as int));
            i += 1;
        }
        assert(vars@.take(i as int) =~= vars@);
        self
    }

    /// Sets the working directory of the command.
    pub fn current_dir(&mut self, cwd: &str) -> (r: &mut Self)
        ensures
            r@ == (CmdView { cwd: Some(cwd@), ..old(self)@ }),
            *final(self) == *final(r),
    {
        self.cwd = Some(cwd.to_owned());
        self
    }

    /// Sets the stdin of the command.
    pub fn stdin(&mut self, stdin: Input) -> (r: &mut Self)
        ensures
            r@ == (CmdView {
                stdio: StdioView { stdin: Some(stdin@), ..old(self)@.stdio },
                ..old(self)@
            }),
            *final(self) == *final(r),
    {
        self.stdio.stdin(stdin);
        self
    }

    /// Sets the stdout of the command.
    pub fn stdout(&mut self, stdout: Output) -> (r: &mut Self)
        ensures
            r@ == (CmdView {
                stdio: StdioView { stdout: Some(stdout@), ..old(self)@.stdio },
                ..old(self)@
            }),
            *final(self) == *final(r),
    {
        self.stdio.stdout(stdout);
        self
    }

    /// Sets the stderr of the command.
    pub fn stderr(&mut self, stderr: Output) -> (r: &mut Self)
        ensures
            r@ == (CmdView {
                stdio: StdioView { stderr: Some(stderr@), ..old(self)@.stdio },
                ..old(self)@
            }),
            *final(self) == *final(r),
    {
        self.stdio.stderr(stderr);
        self
    }

    pub fn get_program(&self) -> (r: &str)
        ensures
            r@ == self@.program,
    {
        self.program.as_str()
    }

    pub fn get_args(&self) -> (r: &[String])
        ensures
            strings_view(r@) == self@.args,
    {
        self.args.as_slice()
    }

    pub fn get_current_dir(&self) -> (r: Option<&str>)
        ensures
            match self@.cwd {
                Option::Some(c) => r matches Some(s) && s@ == c,
                Option::None => r is None,
            },
    {
        match &self.cwd {
            Some(c) => Some(c.as_str()),
            None => None,
        }
    }

    /// Whether the inherited environment is cleared before the changes apply.
    pub fn env_is_cleared(&self) -> (r: bool)
        ensures
            r == self@.env.clear,
    {
        self.env.is_cleared()
    }

    /// The environment changes, one entry per variable: `Some` sets it, `None`
    /// removes it.
    pub fn env_changes(&self) -> (r: &Vec<(String, Option<String>)>)
        ensures
            crate::env::keys_distinct(r@),
            crate::env::vars_map(r@) == self@.env.vars,
    {
        self.env.vars()
    }

    /// How the child's streams are connected when it is spawned, given the
    /// default for stdout.
    pub fn stdio_plan(&self, default_stdout: Output) -> (r: StdioPlan)
        ensures
            (r.stdin, r.stdout, r.stderr) == plan_spec(self@.stdio, default_stdout@),
    {
        self.stdio.configure(default_stdout)
    }

    /// The data to write to the child's stdin, if stdin is set to data.
    pub fn stdin_data(&self) -> (r: Option<&[u8]>)
        ensures
            match self@.stdio.stdin {
                Option::Some(crate::stdio::InputMode::Data(d)) => r matches Some(s) && s@ == d,
                _ => r is None,
            },
    {
        match &self.stdio.stdin {
            Some(i) => i.as_data(),
            None => None,
        }
    }

    /// Whether stdout is kept after it is captured: unless configured otherwise.
    pub fn collects_stdout(&self) -> (r: bool)
        ensures
            r == (self@.stdio.stdout matches Option::Some(o) ==> is_collectable_spec(o)),
    {
        match &self.stdio.stdout {
            Some(o) => o.is_collectable(),
            None => true,
        }
    }

    /// Whether stderr is kept after it is captured: unless configured otherwise.
    pub fn collects_stderr(&self) -> (r: bool)
        ensures
            r == (self@.stdio.stderr matches Option::Some(o) ==> is_collectable_spec(o)),
    {
        match &self.stdio.stderr {
            Some(o) => o.is_collectable(),
            None => true,
        }
    }

    /// Whether stdout can be read back: it is captured unless configured otherwise.
    pub fn stdout_is_captured(&self) -> (r: bool)
        ensures
            r == (self@.stdio.stdout matches Option::Some(o) ==> is_captured_spec(o)),
    {
        match &self.stdio.stdout {
            Some(o) => o.is_captured(),
            None => true,
        }
    }

    /// Whether stderr can be read back: it is captured unless configured otherwise.
    pub fn stderr_is_captured(&self) -> (r: bool)
        ensures
            r == (self@.stdio.stderr matches Option::Some(o) ==> is_captured_spec(o)),
    {
        match &self.stdio.stderr {
            Some(o) => o.is_captured(),
            None => true,
        }
    }

    /// The command shown as `` `program arg1 arg2` `` (what `Display` gives).
    pub fn to_string(&self) -> (r: String)
        ensures
            r@ == cmd_display(self@.program, self@.args),
    {
        let mut out = String::from_str("`");
        push_display_arg(&mut out, self.program.as_str());
        if !self.args.is_empty() {
            out.append(" ");
            push_display_content(&mut out, &self.args.args);
        }
        out.append("`");
        out
    }
}

/// The variables set one after another.
pub open spec fn env_set_all(e: EnvView, vars: Seq<(&str, &str)>) -> EnvView
    decreases vars.len(),
{
    if vars.len() == 0 {
        e
    } else {
        env_set(env_set_all(e, vars.drop_last()), vars.last().0@, vars.last().1@)
    }
}


/// Text without one trailing line feed and then one trailing carriage return.
pub open spec fn strip_line_end(s: Seq<char>) -> Seq<char> {
    let s1 = if s.len() > 0 && s.last() == '\n' {
        s.drop_last()
    } else {
        s
    };
    if s1.len() > 0 && s1.last() == '\r' {
        s1.drop_last()
    } else {
        s1
    }
}

/// Drops the last character when it is `c`.
fn drop_last_if(s: String, c: char) -> (r: String)
    ensures
        r@ == if s@.len() > 0 && s@.last() == c {
            s@.drop_last()
        } else {
            s@
        },
{
    let n = s.as_str().unicode_len();
    if n > 0 && s.as_str().get_char(n - 1) == c {
        s.as_str().substring_char(0, n - 1).to_owned()
    } else {
        s
    }
}

/// Decodes the output of a process as UTF-8 and drops a final line ending.
pub fn read_stream(data: Vec<u8>) -> (r: Result<String, std::string::FromUtf8Error>)
    ensures
        r is Ok <==> vstd::utf8::valid_utf8(data@),
        r matches Ok(s) ==> s@ == strip_line_end(vstd::utf8::decode_utf8(data@)),
{
    let stream = match String::from_utf8(data) {
        Ok(s) => s,
        Err(e) => return Err(e),
    };
    let stream = drop_last_if(stream, '\n');
    let stream = drop_last_if(stream, '\r');
    Ok(stream)
}

} // verus!
