//! How the standard streams of a process are set up.

use vstd::prelude::*;

verus! {

/// How a stream of the child is connected.
#[derive(Debug, Clone, Copy, PartialEq, Eq, Structural)]
pub enum StdioMode {
    Null,
    Piped,
    Inherit,
}

/// The value of an [`Input`].
pub enum InputMode {
    Null,
    Piped,
    Inherit,
    Data(Seq<u8>),
}

#[derive(Debug, Clone)]
enum InputKind {
    Null,
    Piped,
    Inherit,
    Data(Vec<u8>),
}

/// Represents how to set up stdin of a process.
#[derive(Debug, Clone)]
pub struct Input(InputKind);

impl View for Input {
    type V = InputMode;

    closed spec fn view(&self) -> InputMode {
        match self.0 {
            InputKind::Null => InputMode::Null,
            InputKind::Piped => InputMode::Piped,
            InputKind::Inherit => InputMode::Inherit,
            InputKind::Data(v) => InputMode::Data(v@),
        }
    }
}

/// How stdin is connected: data is handed over through a pipe.
pub open spec fn input_stdio(m: InputMode) -> StdioMode {
    match m {
        InputMode::Null => StdioMode::Null,
        InputMode::Piped => StdioMode::Piped,
        InputMode::Inherit => StdioMode::Inherit,
        InputMode::Data(_) => StdioMode::Piped,
    }
}

impl From<Vec<u8>> for Input {
    fn from(v: Vec<u8>) -> (r: Self)
        ensures
            r@ == InputMode::Data(v@),
    {
        Self(InputKind::Data(v))
    }
}

impl vstd::std_specs::convert::FromSpecImpl<Vec<u8>> for Input {
    open spec fn obeys_from_spec() -> bool {
        true
    }

    closed spec fn from_spec(v: Vec<u8>) -> Self {
        Input(InputKind::Data(v))
    }
}

impl Input {
    /// Provide no input to the process.
    pub fn null() -> (r: Input)
        ensures
            r@ == InputMode::Null,
    {
        Self(InputKind::Null)
    }

    /// Pipe input via stream.
    pub fn piped() -> (r: Input)
        ensures
            r@ == InputMode::Piped,
    {
        Self(InputKind::Piped)
    }

    /// Inherit input from the current process.
    pub fn inherit() -> (r: Input)
        ensures
            r@ == InputMode::Inherit,
    {
        Self(InputKind::Inherit)
    }

    /// Provide input data via a buffer to the process.
    pub fn data(data: Vec<u8>) -> (r: Input)
        ensures
            r@ == InputMode::Data(data@),
    {
        Self(InputKind::Data(data))
    }

    /// The data to write to the child's stdin, if any.
    pub fn as_data(&self) -> (r: Option<&[u8]>)
        ensures
            match self@ {
                InputMode::Data(d) => r matches Some(s) && s@ == d,
                _ => r is None,
            },
    {
        match &self.0 {
            InputKind::Data(data) => Some(data.as_slice()),
            _ => None,
        }
    }

    /// How stdin is connected.
    pub fn to_stdio(&self) -> (r: StdioMode)
        ensures
            r == input_stdio(self@),
    {
        match self.0 {
            InputKind::Null => StdioMode::Null,
            InputKind::Piped => StdioMode::Piped,
            InputKind::Inherit => StdioMode::Inherit,
            InputKind::Data(_) => StdioMode::Piped,
        }
    }
}

/// The value of an [`Output`].
#[derive(Debug, Clone, Copy, PartialEq, Eq, Structural)]
pub enum OutputKind {
    Null,
    Piped { collect: bool },
    Inherit,
}

/// Represents how to set up an output stream of a process.
///
/// A captured stream is read by the library; a collectable one is also kept
/// for error reports.
#[derive(Debug, Clone)]
pub struct Output(OutputKind);

impl View for Output {
    type V = OutputKind;

    closed spec fn view(&self) -> OutputKind {
        self.0
    }
}

pub open spec fn is_captured_spec(k: OutputKind) -> bool {
    k is Piped
}

pub open spec fn is_collectable_spec(k: OutputKind) -> bool {
    k matches OutputKind::Piped { collect: true }
}

pub open spec fn output_stdio(k: OutputKind) -> StdioMode {
    match k {
        OutputKind::Null => StdioMode::Null,
        OutputKind::Piped { .. } => StdioMode::Piped,
        OutputKind::Inherit => StdioMode::Inherit,
    }
}

impl Output {
    /// Do not capture any output.
    pub fn null() -> (r: Output)
        ensures
            r@ == OutputKind::Null,
    {
        Self(OutputKind::Null)
    }

    /// Capture the output; captured and collected.
    pub fn piped() -> (r: Output)
        ensures
            r@ == (OutputKind::Piped { collect: true }),
    {
        Self(OutputKind::Piped { collect: true })
    }

    /// Capture the output via the pipe; captured but not collected.
    pub fn piped_stream() -> (r: Output)
        ensures
            r@ == (OutputKind::Piped { collect: false }),
    {
        Self(OutputKind::Piped { collect: false })
    }

    /// Inherit the current process's output stream.
    pub fn inherit() -> (r: Output)
        ensures
            r@ == OutputKind::Inherit,
    {
        Self(OutputKind::Inherit)
    }

    pub fn is_captured(&self) -> (r: bool)
        ensures
            r == is_captured_spec(self@),
    {
        match self.0 {
            OutputKind::Piped { .. } => true,
            _ => false,
        }
    }

    pub fn is_collectable(&self) -> (r: bool)
        ensures
            r == is_collectable_spec(self@),
    {
        match self.0 {
            OutputKind::Piped { collect } => collect,
            _ => false,
        }
    }

    /// How the stream is connected.
    pub fn to_stdio(&self) -> (r: StdioMode)
        ensures
            r == output_stdio(self@),
    {
        match self.0 {
            OutputKind::Null => StdioMode::Null,
            OutputKind::Piped { .. } => StdioMode::Piped,
            OutputKind::Inherit => StdioMode::Inherit,
        }
    }
}

pub open spec fn opt_input_view(o: Option<Input>) -> Option<InputMode> {
    match o {
        Option::Some(i) => Option::Some(i@),
        Option::None => Option::None,
    }
}

pub open spec fn opt_output_view(o: Option<Output>) -> Option<OutputKind> {
    match o {
        Option::Some(i) => Option::Some(i@),
        Option::None => Option::None,
    }
}

/// The value of a [`Stdio`].
pub struct StdioView {
    pub stdin: Option<InputMode>,
    pub stdout: Option<OutputKind>,
    pub stderr: Option<OutputKind>,
}

/// The configured streams; `None` leaves the default.
#[derive(Debug, Clone)]
pub struct Stdio {
    pub stdin: Option<Input>,
    pub stdout: Option<Output>,
    pub stderr: Option<Output>,
}

impl View for Stdio {
    type V = StdioView;

    open spec fn view(&self) -> StdioView {
        StdioView {
            stdin: opt_input_view(self.stdin),
            stdout: opt_output_view(self.stdout),
            stderr: opt_output_view(self.stderr),
        }
    }
}

/// How the three streams of a child are connected when it is spawned.
pub struct StdioPlan {
    /// `None` keeps the default of the process builder.
    pub stdin: Option<StdioMode>,
    pub stdout: StdioMode,
    pub stderr: StdioMode,
}

/// The plan for a spawn: stdin as configured (or left alone), each output
/// stream as configured or else as the default.
pub open spec fn plan_spec(s: StdioView, default_stdout: OutputKind) -> (Option<StdioMode>, StdioMode, StdioMode) {
    (
        match s.stdin {
            Option::Some(i) => Option::Some(input_stdio(i)),
            Option::None => Option::None,
        },
        output_stdio(
            match s.stdout {
                Option::Some(o) => o,
                Option::None => default_stdout,
            },
        ),
        output_stdio(
            match s.stderr {
                Option::Some(o) => o,
                Option::None => default_stdout,
            },
        ),
    )
}

impl Stdio {
    pub fn new() -> (r: Stdio)
        ensures
            r@ == (StdioView { stdin: None, stdout: None, stderr: None }),
    {
        Stdio { stdin: None, stdout: None, stderr: None }
    }

    pub fn stdin(&mut self, stdin: Input)
        ensures
            final(self)@ == (StdioView { stdin: Some(stdin@), ..old(self)@ }),
    {
        self.stdin = Some(stdin);
    }

    pub fn stdout(&mut self, stdout: Output)
        ensures
            final(self)@ == (StdioView { stdout: Some(stdout@), ..old(self)@ }),
    {
        self.stdout = Some(stdout);
    }

    pub fn stderr(&mut self, stderr: Output)
        ensures
            final(self)@ == (StdioView { stderr: Some(stderr@), ..old(self)@ }),
    {
        self.stderr = Some(stderr);
    }

    /// How the child's streams are connected, given the default for stdout.
    pub fn configure(&self, default_stdout: Output) -> (r: StdioPlan)
        ensures
            (r.stdin, r.stdout, r.stderr) == plan_spec(self@, default_stdout@),
    {
        let stdin = match &self.stdin {
            Some(i) => Some(i.to_stdio()),
            None => None,
        };
        let stdout = match &self.stdout {
            Some(o) => o.to_stdio(),
            None => default_stdout.to_stdio(),
        };
        let stderr = match &self.stderr {
            Some(o) => o.to_stdio(),
            None => default_stdout.to_stdio(),
        };
        StdioPlan { stdin, stdout, stderr }
    }
}

} // verus!
