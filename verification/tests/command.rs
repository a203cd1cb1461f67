use xproc::cmd::read_stream;
use xproc::error::{ExitStatus, SpawnError};
use xproc::plumbing::{new_arg, new_args, new_cmd, new_string};
use xproc::stdio::StdioMode;
use xproc::{Args, Cmd, Error, ErrorKind, Input, Output};

#[test]
fn display_interpolated_argument() {
    // cmd!("magic -o={output}") with output = "out.txt"
    let output = "out.txt";
    let cmd = {
        let mut acc = new_cmd("magic");
        acc.arg({
            let mut acc = new_string();
            acc.push("-o=");
            acc.push((&output));
            acc
        });
        acc
    };
    assert_eq!(cmd.to_string(), "`magic -o=out.txt`");
}

#[test]
fn display_quotes_arguments_with_spaces() {
    // cmd!("echo 'single quotes' 'hello '{name}") with name = "world"
    let name = "world";
    let cmd = {
        let mut acc = new_cmd("echo");
        acc.arg("single quotes");
        acc.arg({
            let mut acc = new_string();
            acc.push("hello ");
            acc.push((&name));
            acc
        });
        acc
    };
    assert_eq!(cmd.to_string(), r#"`echo "single quotes" "hello world"`"#);
}

#[test]
fn display_splices() {
    // cmd!("magic {multi..} {optional1..} {optional2..}")
    let multi = ["a", "b", "c"];
    let optional1 = Some("d");
    let optional2: Option<&str> = None;
    let cmd = {
        let mut acc = new_cmd("magic");
        acc.args(multi);
        acc.args(optional1);
        acc.args(optional2);
        acc
    };
    assert_eq!(cmd.to_string(), "`magic a b c d`");
}

#[test]
fn display_args_spliced_into_cmd() {
    // args!("foo {multi..} -o={output}"), then cmd!("magic {args..}")
    let multi = ["a", "b", "c"];
    let output = "out.txt";
    let args = {
        let mut acc = new_args();
        acc.arg("foo");
        acc.args(multi);
        acc.arg({
            let mut acc = new_string();
            acc.push("-o=");
            acc.push((&output));
            acc
        });
        acc
    };
    assert_eq!(args.to_string(), "`foo a b c -o=out.txt`");
    let cmd = {
        let mut acc = new_cmd("magic");
        acc.args(args);
        acc
    };
    assert_eq!(cmd.to_string(), "`magic foo a b c -o=out.txt`");
}

#[test]
fn args_iterate_in_order_after_building() {
    let mut args = new_args();
    args.arg("foo").args(&["a", "b"]);
    let mut cmd = new_cmd("magic");
    let mut it = args.into_iter();
    while let Some(a) = it.next() {
        cmd.arg(&a);
    }
    assert_eq!(cmd.to_string(), "`magic foo a b`");
}

#[test]
fn arg_string_glues_pieces() {
    let mut s = new_string();
    assert_eq!(s.as_str(), "");
    let owned = String::from("b c");
    s.push("a");
    s.push(&owned);
    s.push(owned.as_str());
    assert_eq!(s.as_str(), "ab cb c");
    assert_eq!(new_arg(&s), "ab cb c");
}

#[test]
fn display_program_alone_and_odd_arguments() {
    assert_eq!(Cmd::new("ls").to_string(), "`ls`");
    let mut c = Cmd::new("printf");
    c.arg("").arg("it's").arg("a\"b").arg("x+y,z/w.v_u=t-s");
    assert_eq!(c.to_string(), r#"`printf "" "it's" "a\"b" x+y,z/w.v_u=t-s`"#);
}

#[test]
fn new_arg_is_the_text() {
    // arg!("hello") shows as "hello" with Debug
    assert_eq!(format!("{:?}", new_arg("hello")), r#""hello""#);
    assert_eq!(format!("{:?}", new_arg("hello world")), r#""hello world""#);
}

#[test]
fn getters() {
    let mut c = Cmd::new("git");
    c.arg("status").current_dir("/tmp");
    assert_eq!(c.get_program(), "git");
    assert_eq!(c.get_args(), &["status".to_string()]);
    assert_eq!(c.get_current_dir(), Some("/tmp"));
    assert!(Args::new().is_empty());
    assert_eq!(Args::default().as_slice().len(), 0);
}

#[test]
fn args_into_iter_in_order() {
    let mut a = Args::new();
    a.arg("x").arg("y");
    let mut it = a.into_iter();
    assert_eq!(it.next(), Some("x".to_string()));
    assert_eq!(it.next(), Some("y".to_string()));
    assert_eq!(it.next(), None);
    assert_eq!(it.next(), None);
}

#[test]
fn env_last_set_wins() {
    let mut c = Cmd::new("env");
    c.env("A", "1").env("B", "2").env("A", "3");
    let mut changes = c.env_changes().clone();
    changes.sort();
    assert_eq!(changes, vec![("A".to_string(), Some("3".to_string())), ("B".to_string(), Some("2".to_string()))]);
    assert!(!c.env_is_cleared());
}

#[test]
fn env_remove_marks_removal() {
    let mut c = Cmd::new("env");
    c.env("A", "1").env_remove("A").env_remove("HOME");
    let mut changes = c.env_changes().clone();
    changes.sort();
    assert_eq!(changes, vec![("A".to_string(), None), ("HOME".to_string(), None)]);
}

#[test]
fn env_clear_forgets_and_remove_drops() {
    let mut c = Cmd::new("env");
    c.env("A", "1").env_clear();
    assert!(c.env_is_cleared());
    assert!(c.env_changes().is_empty());
    c.env("B", "2").env("C", "3").env_remove("B").env_remove("D");
    assert_eq!(c.env_changes(), &vec![("C".to_string(), Some("3".to_string()))]);
}

#[test]
fn envs_sets_in_order() {
    let mut c = Cmd::new("env");
    c.envs(&[("A", "1"), ("A", "2"), ("B", "x")]);
    let mut changes = c.env_changes().clone();
    changes.sort();
    assert_eq!(changes, vec![("A".to_string(), Some("2".to_string())), ("B".to_string(), Some("x".to_string()))]);
}

#[test]
fn stdio_defaults() {
    let c = Cmd::new("ls");
    let plan = c.stdio_plan(Output::piped());
    assert_eq!(plan.stdin, None);
    assert_eq!(plan.stdout, StdioMode::Piped);
    assert_eq!(plan.stderr, StdioMode::Piped);
    let plan = c.stdio_plan(Output::null());
    assert_eq!(plan.stdout, StdioMode::Null);
    assert_eq!(plan.stderr, StdioMode::Null);
    assert!(c.collects_stdout() && c.collects_stderr());
    assert!(c.stdout_is_captured() && c.stderr_is_captured());
    assert_eq!(c.stdin_data(), None);
}

#[test]
fn stdio_configured() {
    let mut c = Cmd::new("cat");
    c.stdin(Input::from(vec![1, 2, 3])).stdout(Output::inherit()).stderr(Output::piped_stream());
    let plan = c.stdio_plan(Output::piped());
    assert_eq!(plan.stdin, Some(StdioMode::Piped));
    assert_eq!(plan.stdout, StdioMode::Inherit);
    assert_eq!(plan.stderr, StdioMode::Piped);
    assert_eq!(c.stdin_data(), Some(&[1u8, 2, 3][..]));
    assert!(!c.collects_stdout());
    assert!(!c.stdout_is_captured());
    assert!(!c.collects_stderr());
    assert!(c.stderr_is_captured());
}

#[test]
fn input_and_output_kinds() {
    assert_eq!(Input::null().to_stdio(), StdioMode::Null);
    assert_eq!(Input::piped().to_stdio(), StdioMode::Piped);
    assert_eq!(Input::inherit().to_stdio(), StdioMode::Inherit);
    assert_eq!(Input::data(vec![7]).to_stdio(), StdioMode::Piped);
    assert_eq!(Input::data(vec![7]).as_data(), Some(&[7u8][..]));
    assert_eq!(Input::piped().as_data(), None);
    assert!(Output::piped().is_captured() && Output::piped().is_collectable());
    assert!(Output::piped_stream().is_captured() && !Output::piped_stream().is_collectable());
    assert!(!Output::null().is_captured() && !Output::inherit().is_collectable());
    assert_eq!(Output::null().to_stdio(), StdioMode::Null);
    assert_eq!(Output::inherit().to_stdio(), StdioMode::Inherit);
    assert_eq!(Output::piped_stream().to_stdio(), StdioMode::Piped);
}

#[test]
fn read_stream_drops_one_line_ending() {
    assert_eq!(read_stream(b"hello\n".to_vec()).unwrap(), "hello");
    assert_eq!(read_stream(b"hello\r\n".to_vec()).unwrap(), "hello");
    assert_eq!(read_stream(b"a\n\n".to_vec()).unwrap(), "a\n");
    assert_eq!(read_stream(b"a\r".to_vec()).unwrap(), "a");
    assert_eq!(read_stream(b"a\n\r".to_vec()).unwrap(), "a\n");
    assert_eq!(read_stream(b"".to_vec()).unwrap(), "");
    assert_eq!(read_stream("h\u{e9}\n".as_bytes().to_vec()).unwrap(), "h\u{e9}");
    assert!(read_stream(vec![0x66, 0xff]).is_err());
}

#[test]
fn read_text_reports_non_utf8() {
    let c = Cmd::new("cat");
    assert_eq!(c.read_text(b"ok\n".to_vec()).unwrap(), "ok");
    let e = c.read_text(vec![b'a', 0xff]).unwrap_err();
    assert_eq!(
        e.to_string(),
        "process output is not valid UTF-8: invalid utf-8 sequence of 1 bytes from index 1\ncommand: `cat`"
    );
}

#[test]
fn exit_status_success_is_code_zero() {
    assert!(ExitStatus::new(Some(0), "exit status: 0".to_string()).success());
    assert!(!ExitStatus::new(Some(2), "exit status: 2".to_string()).success());
    assert!(!ExitStatus::new(None, "signal: 9 (SIGKILL)".to_string()).success());
}

#[test]
fn check_exit_status_errors_on_failure() {
    let mut c = Cmd::new("false");
    c.arg("--quiet");
    assert!(Error::check_exit_status(&c, ExitStatus::new(Some(0), "exit status: 0".to_string())).is_ok());
    let e = Error::check_exit_status(&c, ExitStatus::new(Some(1), "exit status: 1".to_string())).unwrap_err();
    assert_eq!(e.to_string(), "process exited with error (exit status: 1)\ncommand: `false --quiet`");
    assert_eq!(e.exit_status().unwrap().code(), Some(1));
    assert_eq!(e.source(), None);
    let e = Error::check_exit_status(&c, ExitStatus::new(None, "signal: 9 (SIGKILL)".to_string())).unwrap_err();
    assert_eq!(e.to_string(), "process exited with error (signal: 9 (SIGKILL))\ncommand: `false --quiet`");
}

#[test]
fn error_reports_collected_output() {
    let c = Cmd::new("make");
    let e = Error::execution_error(&c, ExitStatus::new(Some(2), "exit status: 2".to_string()))
        .output(b"building\n".to_vec(), b"oops\n".to_vec());
    assert_eq!(
        e.to_string(),
        "process exited with error (exit status: 2)\ncommand: `make`\n--- stdout\nbuilding\n\n\n--- stderr\noops\n\n"
    );
    // blank or non-UTF-8 output is left out
    let e = Error::execution_error(&c, ExitStatus::new(Some(2), "exit status: 2".to_string()))
        .output(b" \n\t".to_vec(), vec![0xff]);
    assert_eq!(e.to_string(), "process exited with error (exit status: 2)\ncommand: `make`");
}

#[test]
fn error_kinds_and_sources() {
    let c = Cmd::new("nope");
    let e = Error::spawn_error(&c, SpawnError::Spawn("No such file or directory (os error 2)".to_string()));
    assert_eq!(e.to_string(), "could not start the process: No such file or directory (os error 2)\ncommand: `nope`");
    assert_eq!(e.source(), Some("No such file or directory (os error 2)"));
    let e = Error::spawn_error(&c, SpawnError::StdinWrite("Broken pipe (os error 32)".to_string()));
    assert_eq!(e.to_string(), "failed to write stdin data: Broken pipe (os error 32)\ncommand: `nope`");
    let e = Error::wait_error(&c, "interrupted".to_string()).output(vec![], b"partial".to_vec());
    assert_eq!(e.to_string(), "failed to wait for the process to complete: interrupted\ncommand: `nope`\n--- stderr\npartial\n");
    assert!(e.exit_status().is_none());
}

#[test]
fn error_kind_messages() {
    assert_eq!(ErrorKind::CouldNotStart.as_str(), "could not start the process");
    assert_eq!(ErrorKind::StdinWriteFailed.as_str(), "failed to write stdin data");
    assert_eq!(ErrorKind::WaitFailed.as_str(), "failed to wait for the process to complete");
    assert_eq!(ErrorKind::ExecutionFailed.as_str(), "process exited with error");
    assert_eq!(ErrorKind::NonUtf8Output.as_str(), "process output is not valid UTF-8");
    assert_eq!(ErrorKind::Other.as_str(), "error");
}

#[test]
fn check_output_keeps_the_collected_output() {
    let c = Cmd::new("make");
    let ok = ExitStatus::new(Some(0), "exit status: 0".to_string());
    assert!(Error::check_output(&c, ok, &b"built\n".to_vec(), &vec![]).is_ok());
    let failed = ExitStatus::new(Some(2), "exit status: 2".to_string());
    let e = Error::check_output(&c, failed, &b"building\n".to_vec(), &b"oops\n".to_vec()).unwrap_err();
    assert_eq!(
        e.to_string(),
        "process exited with error (exit status: 2)\ncommand: `make`\n--- stdout\nbuilding\n\n\n--- stderr\noops\n\n"
    );
    assert_eq!(e.exit_status().unwrap().code(), Some(2));
}

#[test]
fn read_stream_removes_only_one_line_ending() {
    for (text, ending) in [("x", ""), ("x", "\n"), ("x", "\r"), ("x", "\r\n"), ("x\r\n", "\n"), ("", "\r\n")] {
        let data = format!("{text}{ending}").into_bytes();
        assert_eq!(read_stream(data).unwrap(), text);
    }
    assert_eq!(read_stream(b"a\r\n\r\n".to_vec()).unwrap(), "a\r\n");
}
