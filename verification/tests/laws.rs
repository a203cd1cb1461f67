use xproc::template::{lex_template, CmdPart, Errors};
use xproc::tokens::{Delimiter, Span, TokenTree};

fn strlit(s: &str) -> TokenTree {
    TokenTree::StrLiteral { value: s.to_string(), span: Span::CallSite }
}

fn borrowed(name: &str, span: Span) -> TokenTree {
    TokenTree::Group {
        delimiter: Delimiter::Parenthesis,
        stream: vec![
            TokenTree::Punct { ch: '&', spacing: xproc::tokens::Spacing::Alone, span: Span::CallSite },
            TokenTree::Ident { name: name.to_string(), span },
        ],
        span: Span::CallSite,
    }
}

fn parts_of(text: &str) -> (Vec<CmdPart>, usize) {
    let mut errors = Errors::new();
    let parts = lex_template(text, Span::Source(1), Span::MixedSite, &mut errors);
    (parts, errors.errors.len())
}

fn same(a: &CmdPart, b: &CmdPart) -> bool {
    match (a, b) {
        (CmdPart::Arg(x), CmdPart::Arg(y)) => x == y,
        (CmdPart::Combined(x), CmdPart::Combined(y)) => x == y,
        (CmdPart::Splat(x), CmdPart::Splat(y)) => x == y,
        _ => false,
    }
}

#[test]
fn spaced_pieces_are_one_part_each() {
    let (parts, errs) = parts_of("run 'a b' {x} {ys..} -v");
    assert_eq!(errs, 0);
    let want = vec![
        CmdPart::Arg(strlit("run")),
        CmdPart::Arg(strlit("a b")),
        CmdPart::Arg(borrowed("x", Span::Source(1))),
        CmdPart::Splat(TokenTree::Ident { name: "ys".to_string(), span: Span::Source(1) }),
        CmdPart::Arg(strlit("-v")),
    ];
    assert_eq!(parts.len(), want.len());
    for (a, b) in parts.iter().zip(want.iter()) {
        assert!(same(a, b));
    }
}

#[test]
fn glued_pieces_are_one_argument() {
    let (parts, errs) = parts_of("'hello '{name}");
    assert_eq!(errs, 0);
    assert_eq!(parts.len(), 1);
    assert!(same(&parts[0], &CmdPart::Combined(vec![strlit("hello "), borrowed("name", Span::Source(1))])));
    let (parts, _) = parts_of("pre{x}'mid'post");
    assert_eq!(parts.len(), 1);
    assert!(same(
        &parts[0],
        &CmdPart::Combined(vec![strlit("pre"), borrowed("x", Span::Source(1)), strlit("mid"), strlit("post")])
    ));
}

#[test]
fn glued_splice_is_reported() {
    let mut errors = Errors::new();
    let parts = lex_template("{xs..}'tail'", Span::Source(1), Span::MixedSite, &mut errors);
    assert_eq!(parts.len(), 1);
    assert!(same(&parts[0], &CmdPart::Splat(TokenTree::Ident { name: "xs".to_string(), span: Span::Source(1) })));
    assert_eq!(errors.errors.len(), 1);
    assert_eq!(errors.errors[0].message, "can't combine splat with concatentaion, add spaces around {xs..}``");
    assert_eq!(errors.errors[0].span, Span::Source(1));
}

#[test]
fn failure_is_always_reported() {
    for t in ["", "'", "{", "{}", "  "] {
        let out = xproc::expand::arg(vec![TokenTree::Literal { repr: format!("\"{}\"", t), span: Span::Source(1) }]);
        assert!(!out.is_empty(), "no output for {:?}", t);
    }
}

#[test]
fn read_text_roundtrip() {
    let c = xproc::Cmd::new("echo");
    for s in ["", "plain", "two\nlines", "caf\u{e9}"] {
        assert_eq!(c.read_text(format!("{s}\n").into_bytes()).unwrap(), s);
        assert_eq!(c.read_text(format!("{s}\r\n").into_bytes()).unwrap(), s);
        assert_eq!(c.read_text(s.as_bytes().to_vec()).unwrap(), s);
    }
}

#[test]
fn word_glued_before_splice_is_reported() {
    let mut errors = Errors::new();
    let parts = lex_template("a{multi..}", Span::Source(1), Span::MixedSite, &mut errors);
    assert_eq!(parts.len(), 2);
    assert!(same(&parts[0], &CmdPart::Arg(strlit("a"))));
    assert!(same(&parts[1], &CmdPart::Splat(TokenTree::Ident { name: "multi".to_string(), span: Span::Source(1) })));
    assert_eq!(errors.errors.len(), 1);
    assert_eq!(errors.errors[0].message, "can't combine splat with concatentaion, add spaces around {multi..}``");
}

#[test]
fn words_of_glued_pieces_at_any_position() {
    let (parts, errs) = parts_of("run a'b'{c} {d}e -x'y z'");
    assert_eq!(errs, 0);
    assert_eq!(parts.len(), 4);
    assert!(same(&parts[0], &CmdPart::Arg(strlit("run"))));
    assert!(same(&parts[1], &CmdPart::Combined(vec![strlit("a"), strlit("b"), borrowed("c", Span::Source(1))])));
    assert!(same(&parts[2], &CmdPart::Combined(vec![borrowed("d", Span::Source(1)), strlit("e")])));
    assert!(same(&parts[3], &CmdPart::Combined(vec![strlit("-x"), strlit("y z")])));
}

#[test]
fn expansion_of_words_runs_to_the_command() {
    // the generated code of cmd!("run a'b'{c} {d}e {xs..}") evaluated by hand
    let c = "C";
    let d = "D";
    let xs = vec!["1", "2"];
    let cmd = {
        let mut acc = xproc::plumbing::new_cmd("run");
        acc.arg({
            let mut acc = xproc::plumbing::new_string();
            acc.push("a");
            acc.push("b");
            acc.push((&c));
            acc
        });
        acc.arg({
            let mut acc = xproc::plumbing::new_string();
            acc.push((&d));
            acc.push("e");
            acc
        });
        acc.args(xs);
        acc
    };
    assert_eq!(cmd.get_program(), "run");
    assert_eq!(cmd.get_args(), &["abC".to_string(), "De".to_string(), "1".to_string(), "2".to_string()]);
}

#[test]
fn words_with_any_whitespace_between_them() {
    let (a, ea) = parts_of("run a'b'{c} {d}e");
    let (b, eb) = parts_of("\t run \n\n a'b'{c}  \t{d}e \r\n");
    assert_eq!((ea, eb), (0, 0));
    assert_eq!(a.len(), 3);
    assert_eq!(b.len(), 3);
    for (x, y) in a.iter().zip(b.iter()) {
        assert!(same(x, y));
    }
}

#[test]
fn splice_glued_inside_a_later_word_is_reported() {
    let mut errors = Errors::new();
    lex_template("run -v x'y'{zs..}'w' last", Span::Source(1), Span::MixedSite, &mut errors);
    assert_eq!(errors.errors.len(), 2);
    assert_eq!(errors.errors[0].message, "can't combine splat with concatentaion, add spaces around {zs..}``");
}
