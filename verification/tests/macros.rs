use xproc::expand::{arg, args, cmd};
use xproc::tokens::{Delimiter, Spacing, Span, TokenTree};

fn lit(repr: &str) -> TokenTree {
    TokenTree::Literal { repr: repr.to_string(), span: Span::Source(7) }
}

/// The template as a string literal; escapes are not interpreted.
fn input(template: &str) -> Vec<TokenTree> {
    vec![lit(&format!("\"{}\"", template))]
}

/// Renders tokens as code: tokens separated by spaces, joint punctuation glued.
fn render(stream: &[TokenTree]) -> String {
    let mut out = String::new();
    let mut glue = true;
    for t in stream {
        if !glue {
            out.push(' ');
        }
        glue = false;
        match t {
            TokenTree::Group { delimiter, stream, .. } => {
                let (open, close) = match delimiter {
                    Delimiter::Parenthesis => ("(", ")"),
                    Delimiter::Brace => ("{", "}"),
                    Delimiter::Bracket => ("[", "]"),
                    Delimiter::Invisible => ("", ""),
                };
                out.push_str(open);
                out.push_str(&render(stream));
                out.push_str(close);
            }
            TokenTree::Ident { name, .. } => out.push_str(name),
            TokenTree::Punct { ch, spacing, .. } => {
                out.push(*ch);
                glue = *spacing == Spacing::Joint;
            }
            TokenTree::Literal { repr, .. } => out.push_str(repr),
            TokenTree::StrLiteral { value, .. } => out.push_str(&format!("{:?}", value)),
        }
    }
    out
}

const P: &str = ":: xproc :: plumbing :: ";

#[test]
fn cmd_single_word_is_just_new_cmd() {
    let out = cmd(input("ls"));
    assert_eq!(render(&out), format!("{P}new_cmd (\"ls\")"));
}

#[test]
fn cmd_interpolation_glued_to_word() {
    // cmd!("magic -o={output}")
    let out = cmd(input("magic -o={output}"));
    assert_eq!(
        render(&out),
        format!(
            "{{let mut acc = {P}new_cmd (\"magic\") ; acc . arg ({{let mut acc = {P}new_string () ; acc . push (\"-o=\") ; acc . push ((& output)) ; acc}}) ; acc}}"
        )
    );
}

#[test]
fn cmd_quotes_keep_spaces() {
    // cmd!("echo 'single quotes' 'hello '{name}")
    let out = cmd(input("echo 'single quotes' 'hello '{name}"));
    assert_eq!(
        render(&out),
        format!(
            "{{let mut acc = {P}new_cmd (\"echo\") ; acc . arg (\"single quotes\") ; acc . arg ({{let mut acc = {P}new_string () ; acc . push (\"hello \") ; acc . push ((& name)) ; acc}}) ; acc}}"
        )
    );
}

#[test]
fn cmd_splices() {
    // cmd!("magic {multi..} {optional1..} {optional2..}")
    let out = cmd(input("magic {multi..} {optional1..} {optional2..}"));
    assert_eq!(
        render(&out),
        format!(
            "{{let mut acc = {P}new_cmd (\"magic\") ; acc . args (multi) ; acc . args (optional1) ; acc . args (optional2) ; acc}}"
        )
    );
}

#[test]
fn cmd_interpolation_spans_point_at_the_template() {
    let out = cmd(input("git rev-parse {branch}"));
    // the identifier of the interpolation carries the literal's span
    fn find_ident(s: &[TokenTree], name: &str) -> Option<Span> {
        for t in s {
            match t {
                TokenTree::Ident { name: n, span } if n == name => return Some(*span),
                TokenTree::Group { stream, .. } => {
                    if let Some(sp) = find_ident(stream, name) {
                        return Some(sp);
                    }
                }
                _ => {}
            }
        }
        None
    }
    assert_eq!(find_ident(&out, "branch"), Some(Span::Source(7)));
    assert_eq!(find_ident(&out, "acc"), Some(Span::MixedSite));
}

#[test]
fn cmd_with_explicit_path() {
    let path = TokenTree::Group {
        delimiter: Delimiter::Parenthesis,
        stream: vec![
            TokenTree::Ident { name: "my".to_string(), span: Span::CallSite },
            TokenTree::Punct { ch: ':', spacing: Spacing::Joint, span: Span::CallSite },
            TokenTree::Punct { ch: ':', spacing: Spacing::Alone, span: Span::CallSite },
            TokenTree::Ident { name: "plumbing".to_string(), span: Span::CallSite },
        ],
        span: Span::CallSite,
    };
    let out = cmd(vec![path, lit("\"ls -l\"")]);
    assert_eq!(
        render(&out),
        "{let mut acc = my :: plumbing :: new_cmd (\"ls\") ; acc . arg (\"-l\") ; acc}"
    );
}

#[test]
fn cmd_accepts_single_quoted_literal_and_invisible_group() {
    let out = cmd(vec![lit("'ls'")]);
    assert_eq!(render(&out), format!("{P}new_cmd (\"ls\")"));
    let group = TokenTree::Group {
        delimiter: Delimiter::Invisible,
        stream: vec![lit("\"ls\"")],
        span: Span::CallSite,
    };
    let out = cmd(vec![group]);
    assert_eq!(render(&out), format!("{P}new_cmd (\"ls\")"));
}

#[test]
fn cmd_reports_non_literal() {
    let out = cmd(vec![TokenTree::Ident { name: "x".to_string(), span: Span::Source(3) }]);
    assert_eq!(render(&out), "compile_error ! (\"expected string literal\") ;");
    match &out[0] {
        TokenTree::Ident { span, .. } => assert_eq!(*span, Span::Source(3)),
        _ => panic!("expected an identifier"),
    }
    let out = cmd(vec![lit("r\"ls\"")]);
    assert_eq!(render(&out), "compile_error ! (\"expected string literal\") ;");
}

#[test]
fn cmd_reports_missing_input() {
    let out = cmd(vec![]);
    assert_eq!(render(&out), "compile_error ! (\"expected command\") ;");
}

#[test]
fn cmd_reports_empty_template() {
    let out = cmd(input("   "));
    assert_eq!(render(&out), "compile_error ! (\"expected the command to be specified\") ;");
}

#[test]
fn cmd_reports_unclosed_brace_and_keeps_parts() {
    let out = cmd(input("ls {oops"));
    assert_eq!(
        render(&out),
        format!("{P}new_cmd (\"ls\") compile_error ! (\"unclosed `{{` in command\") ;")
    );
}

#[test]
fn cmd_reports_unclosed_quote() {
    let out = cmd(input("echo 'oops"));
    assert_eq!(
        render(&out),
        format!("{P}new_cmd (\"echo\") compile_error ! (\"unclosed `'` in command\") ;")
    );
}

#[test]
fn cmd_reports_non_inline_interpolation() {
    let out = cmd(input("echo {} x"));
    assert_eq!(
        render(&out),
        format!(
            "{{let mut acc = {P}new_cmd (\"echo\") ; acc . arg (\"x\") ; acc}} compile_error ! (\"non-inline interpolation arguments are not yet supported\") ;"
        )
    );
}

#[test]
fn cmd_reports_glued_splice() {
    let out = cmd(input("echo {xs..}tail"));
    assert_eq!(
        render(&out),
        format!(
            "{{let mut acc = {P}new_cmd (\"echo\") ; acc . args (xs) ; acc}} compile_error ! (\"can't combine splat with concatentaion, add spaces around {{xs..}}``\") ;"
        )
    );
}

#[test]
fn cmd_reports_word_glued_before_splice() {
    // a splice cannot be merged with the word in front of it either
    let out = cmd(input("magic a{multi..}"));
    assert_eq!(
        render(&out),
        format!(
            "{{let mut acc = {P}new_cmd (\"magic\") ; acc . arg (\"a\") ; acc . args (multi) ; acc}} compile_error ! (\"can't combine splat with concatentaion, add spaces around {{multi..}}``\") ;"
        )
    );
}

#[test]
fn cmd_reports_splice_glued_on_both_sides_twice() {
    let out = cmd(input("x a{m..}b"));
    let text = render(&out);
    assert_eq!(text.matches("compile_error").count(), 2);
    assert!(text.contains("add spaces around {m..}"));
}

#[test]
fn cmd_reports_extra_input() {
    let out = cmd(vec![lit("\"ls\""), TokenTree::Punct { ch: ',', spacing: Spacing::Alone, span: Span::Source(9) }]);
    assert_eq!(
        render(&out),
        format!("{P}new_cmd (\"ls\") compile_error ! (\"interpolation arguments are not yet supported\") ;")
    );
    match &out[out.len() - 4] {
        TokenTree::Ident { span, .. } => assert_eq!(*span, Span::Source(9)),
        _ => panic!("expected an identifier"),
    }
}

#[test]
fn arg_single() {
    // arg!("hello") and arg!("'hello world'")
    assert_eq!(render(&arg(input("hello"))), format!("{P}new_arg (\"hello\")"));
    assert_eq!(render(&arg(input("'hello world'"))), format!("{P}new_arg (\"hello world\")"));
    assert_eq!(render(&arg(input("-flto={lto}"))),
        format!("{P}new_arg ({{let mut acc = {P}new_string () ; acc . push (\"-flto=\") ; acc . push ((& lto)) ; acc}})"));
}

#[test]
fn arg_reports_errors() {
    assert_eq!(render(&arg(input(""))), "compile_error ! (\"expected the argument\") ;");
    assert_eq!(
        render(&arg(input("a b"))),
        format!("{P}new_arg (\"a\") compile_error ! (\"expected at most one argument\") ;")
    );
    assert_eq!(
        render(&arg(input("{xs..}"))),
        "compile_error ! (\"splat arguments are not yet supported, use args! instead\") ;"
    );
}

#[test]
fn args_lists() {
    assert_eq!(render(&args(input(""))), format!("{P}new_args ()"));
    // args!("foo {multi..} -o={output}")
    assert_eq!(
        render(&args(input("foo {multi..} -o={output}"))),
        format!(
            "{{let mut acc = {P}new_args () ; acc . arg (\"foo\") ; acc . args (multi) ; acc . arg ({{let mut acc = {P}new_string () ; acc . push (\"-o=\") ; acc . push ((& output)) ; acc}}) ; acc}}"
        )
    );
}

#[test]
fn escapes_are_kept_as_written() {
    let out = arg(vec![lit("\"a\\tb\"")]);
    assert_eq!(render(&out), format!("{P}new_arg (\"a\\\\tb\")"));
}

#[test]
fn words_split_at_any_whitespace() {
    let out = args(input("  a\tb \n c  "));
    assert_eq!(
        render(&out),
        format!("{{let mut acc = {P}new_args () ; acc . arg (\"a\") ; acc . arg (\"b\") ; acc . arg (\"c\") ; acc}}")
    );
}

#[test]
fn cmd_with_repeated_and_surrounding_whitespace() {
    let plain = render(&cmd(input("git status")));
    assert_eq!(render(&cmd(input("git  status"))), plain);
    assert_eq!(render(&cmd(input("\n  git\t\tstatus \r\n"))), plain);
    assert_eq!(
        plain,
        format!("{{let mut acc = {P}new_cmd (\"git\") ; acc . arg (\"status\") ; acc}}")
    );
}

#[test]
fn cmd_multi_line_template_with_glued_words() {
    let out = cmd(input("cc\n    -o{out}\n    'main file.c'\n"));
    assert_eq!(
        render(&out),
        format!(
            "{{let mut acc = {P}new_cmd (\"cc\") ; acc . arg ({{let mut acc = {P}new_string () ; acc . push (\"-o\") ; acc . push ((& out)) ; acc}}) ; acc . arg (\"main file.c\") ; acc}}"
        )
    );
}

#[test]
fn cmd_reports_names_that_are_not_identifiers() {
    for t in ["echo {a b}", "echo {1x}", "echo {a.b..}", "echo {x-y}"] {
        let text = render(&cmd(input(t)));
        assert!(
            text.ends_with("compile_error ! (\"interpolated names must be identifiers\") ;"),
            "{:?} gave {}",
            t,
            text
        );
    }
    let ok = render(&cmd(input("echo {_x1} {x_2..} {é}")));
    assert!(!ok.contains("compile_error"), "{}", ok);
}
