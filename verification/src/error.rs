//! Errors of running a command, and how they are reported.

use vstd::prelude::*;
use vstd::utf8::{decode_utf8, valid_utf8};
use crate::cmd::{cmd_display, read_stream, strip_line_end, Cmd};
use crate::text::{all_whitespace, trims_to_empty};

verus! {

/// The kind of process error that occurred.
#[derive(Debug, Clone, Copy, PartialEq, Eq, Structural)]
#[non_exhaustive]
pub enum ErrorKind {
    /// Failed to start the process
    CouldNotStart,
    /// Failed to write stdin data
    StdinWriteFailed,
    /// Process started, but failed to wait
    WaitFailed,
    /// Process started, but returned a non-zero exit code
    ExecutionFailed,
    /// Process output is not valid UTF-8
    NonUtf8Output,
    Other,
}

pub open spec fn kind_message(k: ErrorKind) -> Seq<char> {
    match k {
        ErrorKind::CouldNotStart => "could not start the process"@,
        ErrorKind::StdinWriteFailed => "failed to write stdin data"@,
        ErrorKind::WaitFailed => "failed to wait for the process to complete"@,
        ErrorKind::ExecutionFailed => "process exited with error"@,
        ErrorKind::NonUtf8Output => "process output is not valid UTF-8"@,
        ErrorKind::Other => "error"@,
    }
}

impl ErrorKind {
    /// The description of the kind (what `Display` gives).
    pub fn as_str(&self) -> (r: &'static str)
        ensures
            r@ == kind_message(*self),
    {
        match self {
            ErrorKind::CouldNotStart => "could not start the process",
            ErrorKind::StdinWriteFailed => "failed to write stdin data",
            ErrorKind::WaitFailed => "failed to wait for the process to complete",
            ErrorKind::ExecutionFailed => "process exited with error",
            ErrorKind::NonUtf8Output => "process output is not valid UTF-8",
            ErrorKind::Other => "error",
        }
    }
}

/// The value of an [`ExitStatus`].
pub struct ExitStatusView {
    pub code: Option<i32>,
    pub description: Seq<char>,
}

/// How a process ended: its exit code, if it exited with one, and how the
/// status is described.
#[derive(Debug, Clone)]
pub struct ExitStatus {
    code: Option<i32>,
    description: String,
}

impl View for ExitStatus {
    type V = ExitStatusView;

    closed spec fn view(&self) -> ExitStatusView {
        ExitStatusView { code: self.code, description: self.description@ }
    }
}

impl ExitStatus {
    pub fn new(code: Option<i32>, description: String) -> (r: ExitStatus)
        ensures
            r@ == (ExitStatusView { code, description: description@ }),
    {
        ExitStatus { code, description }
    }

    /// Success is an exit code of zero; a process ended by a signal did not succeed.
    pub fn success(&self) -> (r: bool)
        ensures
            r == (self@.code == Some(0i32)),
    {
        match self.code {
            Some(c) => c == 0,
            None => false,
        }
    }

    pub fn code(&self) -> (r: Option<i32>)
        ensures
            r == self@.code,
    {
        self.code
    }

    /// How the status is shown.
    pub fn description(&self) -> (r: &str)
        ensures
            r@ == self@.description,
    {
        self.description.as_str()
    }
}

/// Why a child could not be spawned, with the message of the underlying I/O error.
pub enum SpawnError {
    Spawn(String),
    StdinWrite(String),
}

/// The value of an [`Error`].
pub struct ErrorView {
    pub kind: ErrorKind,
    pub command: Seq<char>,
    pub source: Option<Seq<char>>,
    pub exit_status: Option<ExitStatusView>,
    pub stdout: Seq<u8>,
    pub stderr: Seq<u8>,
}

/// An error of running a command: its kind, the command as shown, the message
/// of the underlying error, the exit status and the output collected.
#[derive(Debug)]
pub struct Error {
    kind: ErrorKind,
    command: String,
    source: Option<String>,
    exit_status: Option<ExitStatus>,
    stdout: Vec<u8>,
    stderr: Vec<u8>,
}

impl View for Error {
    type V = ErrorView;

    closed spec fn view(&self) -> ErrorView {
        ErrorView {
            kind: self.kind,
            command: self.command@,
            source: match self.source {
                Option::Some(s) => Option::Some(s@),
                Option::None => Option::None,
            },
            exit_status: match self.exit_status {
                Option::Some(s) => Option::Some(s@),
                Option::None => Option::None,
            },
            stdout: self.stdout@,
            stderr: self.stderr@,
        }
    }
}

/// The error of the kind for the command, with the source message and nothing else.
pub open spec fn fresh_error(kind: ErrorKind, cmd: &Cmd, source: Option<Seq<char>>) -> ErrorView {
    ErrorView {
        kind,
        command: cmd_display(cmd@.program, cmd@.args),
        source,
        exit_status: None,
        stdout: Seq::empty(),
        stderr: Seq::empty(),
    }
}

pub open spec fn status_text(s: Option<ExitStatusView>) -> Seq<char> {
    match s {
        Option::Some(st) => " ("@ + st.description + ")"@,
        Option::None => Seq::empty(),
    }
}

pub open spec fn source_text(s: Option<Seq<char>>) -> Seq<char> {
    match s {
        Option::Some(m) => ": "@ + m,
        Option::None => Seq::empty(),
    }
}

/// Output is shown when it is text with something besides whitespace.
pub open spec fn stream_text(label: Seq<char>, bytes: Seq<u8>) -> Seq<char> {
    if valid_utf8(bytes) && !all_whitespace(decode_utf8(bytes)) {
        label + decode_utf8(bytes) + "\n"@
    } else {
        Seq::empty()
    }
}

/// The report of an error: what failed, the exit status, the underlying
/// error, the command, and the output that was collected.
pub open spec fn error_message(e: ErrorView) -> Seq<char> {
    let head = if e.kind is Other {
        e.source.unwrap() + status_text(e.exit_status)
    } else {
        kind_message(e.kind) + status_text(e.exit_status) + source_text(e.source)
    };
    head + "\ncommand: "@ + e.command + stream_text("\n--- stdout\n"@, e.stdout) + stream_text(
        "\n--- stderr\n"@,
        e.stderr,
    )
}

/// Appends the output when it is worth showing.
fn push_stream(out: &mut String, label: &str, bytes: &Vec<u8>)
    ensures
        final(out)@ == old(out)@ + stream_text(label@, bytes@),
{
    let copy = bytes.clone();
    assert(copy@ =~= bytes@);
    match String::from_utf8(copy) {
        Ok(text) => {
            if !trims_to_empty(text.as_str()) {
                out.append(label);
                out.append(text.as_str());
                out.append("\n");
            }
        },
        Err(_) => {},
    }
}

impl Error {
    /// An error of the kind `Other` has a source.
    #[verifier::type_invariant]
    spec fn other_has_source(&self) -> bool {
        self.kind is Other ==> self.source is Some
    }

    fn new(kind: ErrorKind, cmd: &Cmd, source: Option<String>) -> (r: Self)
        requires
            kind is Other ==> source is Some,
        ensures
            r@ == fresh_error(
                kind,
                cmd,
                match source {
                    Option::Some(s) => Option::Some(s@),
                    Option::None => Option::None,
                },
            ),
    {
        Error {
            kind,
            command: cmd.to_string(),
            source,
            exit_status: None,
            stdout: Vec::new(),
            stderr: Vec::new(),
        }
    }

    /// The error of a failed spawn.
    pub fn spawn_error(cmd: &Cmd, error: SpawnError) -> (r: Self)
        ensures
            match error {
                SpawnError::Spawn(m) => r@ == fresh_error(ErrorKind::CouldNotStart, cmd, Some(m@)),
                SpawnError::StdinWrite(m) => r@ == fresh_error(
                    ErrorKind::StdinWriteFailed,
                    cmd,
                    Some(m@),
                ),
            },
    {
        match error {
            SpawnError::Spawn(source) => Self::new(ErrorKind::CouldNotStart, cmd, Some(source)),
            SpawnError::StdinWrite(source) => Self::new(
                ErrorKind::StdinWriteFailed,
                cmd,
                Some(source),
            ),
        }
    }

    /// The error of a failed wait, with the message of the I/O error.
    pub fn wait_error(cmd: &Cmd, error: String) -> (r: Self)
        ensures
            r@ == fresh_error(ErrorKind::WaitFailed, cmd, Some(error@)),
    {
        Self::new(ErrorKind::WaitFailed, cmd, Some(error))
    }

    /// Success passes; any other status is an execution error.
    pub fn check_exit_status(cmd: &Cmd, code: ExitStatus) -> (r: Result<(), Self>)
        ensures
            r is Ok <==> code@.code == Some(0i32),
            r matches Err(e) ==> e@ == (ErrorView {
                exit_status: Some(code@),
                ..fresh_error(ErrorKind::ExecutionFailed, cmd, None)
            }),
    {
        if !code.success() {
            Err(Self::execution_error(cmd, code))
        } else {
            Ok(())
        }
    }

    /// Success passes; any other status is an execution error that carries
    /// the output collected from the process.
    pub fn check_output(cmd: &Cmd, code: ExitStatus, stdout: &Vec<u8>, stderr: &Vec<u8>) -> (r:
        Result<(), Self>)
        ensures
            r is Ok <==> code@.code == Some(0i32),
            r matches Err(e) ==> e@ == (ErrorView {
                exit_status: Some(code@),
                stdout: stdout@,
                stderr: stderr@,
                ..fresh_error(ErrorKind::ExecutionFailed, cmd, None)
            }),
    {
        if !code.success() {
            let out = stdout.clone();
            let err = stderr.clone();
            assert(out@ =~= stdout@);
            assert(err@ =~= stderr@);
            Err(Self::execution_error(cmd, code).output(out, err))
        } else {
            Ok(())
        }
    }

    /// The error of a process that exited with the status.
    pub fn execution_error(cmd: &Cmd, code: ExitStatus) -> (r: Self)
        ensures
            r@ == (ErrorView {
                exit_status: Some(code@),
                ..fresh_error(ErrorKind::ExecutionFailed, cmd, None)
            }),
    {
        let mut error = Self::new(ErrorKind::ExecutionFailed, cmd, None);
        proof {
            use_type_invariant(&error);
        }
        error.exit_status = Some(code);
        error
    }

    /// The error of output that is not UTF-8; its source is the text that
    /// `Display` gives for the decoding error (where the decoding failed).
    pub fn non_utf8_output(cmd: &Cmd, source: std::string::FromUtf8Error) -> (r: Self)
        ensures
            r@.kind == ErrorKind::NonUtf8Output,
            r@.command == cmd_display(cmd@.program, cmd@.args),
            r@.source matches Some(m) && exists|t: String|
                #![trigger vstd::string::to_string_from_display_ensures::<std::string::FromUtf8Error>(&source, t)]
                t@ == m && vstd::string::to_string_from_display_ensures::<
                    std::string::FromUtf8Error,
                >(&source, t),
            r@.exit_status is None,
            r@.stdout.len() == 0,
            r@.stderr.len() == 0,
    {
        let message = source.to_string();
        Self::new(ErrorKind::NonUtf8Output, cmd, Some(message))
    }

    /// The same error with the output of the process.
    pub fn output(self, stdout: Vec<u8>, stderr: Vec<u8>) -> (r: Self)
        ensures
            r@ == (ErrorView { stdout: stdout@, stderr: stderr@, ..self@ }),
    {
        let mut s = self;
        proof {
            use_type_invariant(&s);
        }
        s.stdout = stdout;
        s.stderr = stderr;
        s
    }

    /// Gets the message of the underlying error, if there is one.
    pub fn source(&self) -> (r: Option<&str>)
        ensures
            match self@.source {
                Option::Some(m) => r matches Some(s) && s@ == m,
                Option::None => r is None,
            },
    {
        match &self.source {
            Some(s) => Some(s.as_str()),
            None => None,
        }
    }

    /// Gets the exit status of the process, if available.
    pub fn exit_status(&self) -> (r: Option<&ExitStatus>)
        ensures
            match self@.exit_status {
                Option::Some(st) => r matches Some(s) && s@ == st,
                Option::None => r is None,
            },
    {
        match &self.exit_status {
            Some(s) => Some(s),
            None => None,
        }
    }

    /// The report of the error (what `Display` gives).
    pub fn to_string(&self) -> (r: String)
        ensures
            r@ == error_message(self@),
    {
        proof {
            use_type_invariant(self);
        }
        let mut out = String::new();
        if let ErrorKind::Other = self.kind {
            match &self.source {
                Some(s) => out.append(s.as_str()),
                None => {},
            }
            if let Some(code) = &self.exit_status {
                out.append(" (");
                out.append(code.description.as_str());
                out.append(")");
            }
        } else {
            out.append(self.kind.as_str());
            if let Some(code) = &self.exit_status {
                out.append(" (");
                out.append(code.description.as_str());
                out.append(")");
            }
            if let Some(source) = &self.source {
                out.append(": ");
                out.append(source.as_str());
            }
        }
        out.append("\ncommand: ");
        out.append(self.command.as_str());
        push_stream(&mut out, "\n--- stdout\n", &self.stdout);
        push_stream(&mut out, "\n--- stderr\n", &self.stderr);
        out
    }
}


/// The text is what `Display` gives for some UTF-8 decoding error.
pub open spec fn is_decoding_report(m: Seq<char>) -> bool {
    exists|d: std::string::FromUtf8Error, t: String|
        #![trigger vstd::string::to_string_from_display_ensures::<std::string::FromUtf8Error>(&d, t)]
        t@ == m && vstd::string::to_string_from_display_ensures::<std::string::FromUtf8Error>(&d, t)
}

impl Cmd {
    /// The captured output of the command as text, without a final line
    /// ending; an error when it is not UTF-8.
    pub fn read_text(&self, data: Vec<u8>) -> (r: Result<String, Error>)
        ensures
            r is Ok <==> valid_utf8(data@),
            r matches Ok(s) ==> s@ == strip_line_end(decode_utf8(data@)),
            r matches Err(e) ==> e@.kind == ErrorKind::NonUtf8Output && e@.command
                == cmd_display(self@.program, self@.args) && e@.exit_status is None
                && e@.source is Some && is_decoding_report(e@.source->Some_0),
    {
        match read_stream(data) {
            Ok(s) => Ok(s),
            Err(d) => {
                let e = Error::non_utf8_output(self, d);
                proof {
                    let m = e@.source->Some_0;
                    let t = choose|t: String|
                        #![trigger vstd::string::to_string_from_display_ensures::<std::string::FromUtf8Error>(&d, t)]
                        t@ == m && vstd::string::to_string_from_display_ensures::<
                            std::string::FromUtf8Error,
                        >(&d, t);
                    assert(vstd::string::to_string_from_display_ensures::<
                        std::string::FromUtf8Error,
                    >(&d, t));
                }
                Err(e)
            },
        }
    }
}

} // verus!
