//! Expansion of the command macros: from the macro's input tokens to the code
//! that builds the command, with the diagnostics turned into `compile_error!`.

use vstd::prelude::*;
use crate::template::{
    lex_template, lex_template_spec, part_wf, parts_view, CmdPart, ErrorGuaranteed, Errors,
    MacroError, PartView,
};
use crate::tokens::{
    extend_copy, lemma_trees_view, lemma_trees_view_push, span_of, stream_view, tree_view,
    trees_view, Delimiter, Spacing, Span, TokenTree, TreeView,
};

verus! {

/// The text between a leading and a trailing `quote`.
pub open spec fn trim_quotes_spec(text: Seq<char>, quote: char) -> Option<Seq<char>> {
    if text.len() >= 2 && text[0] == quote && text[text.len() - 1] == quote {
        Option::Some(text.subrange(1, text.len() - 1))
    } else {
        Option::None
    }
}

/// The literal that a token stands for: a literal, or an invisible group of one literal.
pub open spec fn literal_of(t: TreeView) -> Option<(Seq<char>, Span)> {
    match t {
        TreeView::Literal(repr, span) => Option::Some((repr, span)),
        TreeView::Group(Delimiter::Invisible, s, _) => if s.len() == 1 {
            match s[0] {
                TreeView::Literal(repr, span) => Option::Some((repr, span)),
                _ => Option::None,
            }
        } else {
            Option::None
        },
        _ => Option::None,
    }
}

/// The text of a string literal token (single or double quotes; escapes are
/// not interpreted), or the diagnostic for anything else.
pub open spec fn string_literal_spec(t: TreeView) -> Result<(Seq<char>, Span), (Seq<char>, Span)> {
    match literal_of(t) {
        Option::None => Result::Err(("expected string literal"@, span_of(t))),
        Option::Some((repr, span)) => match trim_quotes_spec(repr, '\'') {
            Option::Some(x) => Result::Ok((x, span)),
            Option::None => match trim_quotes_spec(repr, '"') {
                Option::Some(x) => Result::Ok((x, span)),
                Option::None => Result::Err(("expected string literal"@, span)),
            },
        },
    }
}

/// Where the generated code finds the helper functions, and the spans it uses.
pub struct KrateView {
    pub full_span: Span,
    pub private_span: Span,
    pub plumbing: Seq<TreeView>,
}

pub open spec fn punct(c: char, spacing: Spacing) -> TreeView {
    TreeView::Punct(c, spacing, Span::CallSite)
}

/// `::xproc::plumbing`
pub open spec fn default_plumbing() -> Seq<TreeView> {
    seq![
        punct(':', Spacing::Joint),
        punct(':', Spacing::Alone),
        TreeView::Ident("xproc"@, Span::MixedSite),
        punct(':', Spacing::Joint),
        punct(':', Spacing::Alone),
        TreeView::Ident("plumbing"@, Span::MixedSite),
    ]
}

/// The path comes first in parentheses when given; the number of tokens it used.
pub open spec fn krate_spec(input: Seq<TreeView>) -> (KrateView, int) {
    if input.len() > 0 && input[0] matches TreeView::Group(Delimiter::Parenthesis, s, _) {
        (
            KrateView {
                full_span: Span::CallSite,
                private_span: Span::MixedSite,
                plumbing: match input[0] {
                    TreeView::Group(_, s, _) => s,
                    _ => Seq::empty(),
                },
            },
            1,
        )
    } else {
        (
            KrateView {
                full_span: Span::CallSite,
                private_span: Span::MixedSite,
                plumbing: default_plumbing(),
            },
            0,
        )
    }
}

/// The parts of the template at `start`, or none, and the diagnostics.
pub open spec fn lex_input_spec(input: Seq<TreeView>, start: int, k: KrateView) -> (
    Option<Seq<PartView>>,
    Seq<(Seq<char>, Span)>,
) {
    if start >= input.len() {
        (Option::None, seq![("expected command"@, k.full_span)])
    } else {
        match string_literal_spec(input[start]) {
            Result::Err(e) => (Option::None, seq![e]),
            Result::Ok((text, span)) => {
                let st = lex_template_spec(text, span, k.private_span);
                let extra = if start + 1 < input.len() {
                    seq![
                        (
                            "interpolation arguments are not yet supported"@,
                            span_of(input[start + 1]),
                        ),
                    ]
                } else {
                    Seq::empty()
                };
                (Option::Some(st.parts), st.errors + extra)
            },
        }
    }
}

/// `<plumbing>::ident(args)`
pub open spec fn call_trees(k: KrateView, ident: Seq<char>, args: Seq<TreeView>) -> Seq<TreeView> {
    k.plumbing + seq![
        punct(':', Spacing::Joint),
        punct(':', Spacing::Alone),
        TreeView::Ident(ident, k.private_span),
        TreeView::Group(Delimiter::Parenthesis, args, Span::CallSite),
    ]
}

/// `.ident(args)`
pub open spec fn method_trees(k: KrateView, ident: Seq<char>, args: Seq<TreeView>) -> Seq<TreeView> {
    seq![
        punct('.', Spacing::Alone),
        TreeView::Ident(ident, k.private_span),
        TreeView::Group(Delimiter::Parenthesis, args, Span::CallSite),
    ]
}

/// The accumulator variable of generated blocks.
pub open spec fn acc_tree() -> TreeView {
    TreeView::Ident("acc"@, Span::MixedSite)
}

/// `let mut ident =`
pub open spec fn let_head_of(ident: Seq<char>) -> Seq<TreeView> {
    seq![
        TreeView::Ident("let"@, Span::MixedSite),
        TreeView::Ident("mut"@, Span::MixedSite),
        TreeView::Ident(ident, Span::MixedSite),
        punct('=', Spacing::Alone),
    ]
}

/// `let mut acc =`
pub open spec fn let_head() -> Seq<TreeView> {
    let_head_of("acc"@)
}

/// `acc.push(piece);`
pub open spec fn push_stmt(piece: TreeView) -> Seq<TreeView> {
    seq![
        acc_tree(),
        punct('.', Spacing::Alone),
        TreeView::Ident("push"@, Span::MixedSite),
        TreeView::Group(Delimiter::Parenthesis, seq![piece], Span::CallSite),
        punct(';', Spacing::Alone),
    ]
}

pub open spec fn push_stmts(pieces: Seq<TreeView>) -> Seq<TreeView>
    decreases pieces.len(),
{
    if pieces.len() == 0 {
        Seq::empty()
    } else {
        push_stmts(pieces.drop_last()) + push_stmt(pieces.last())
    }
}

/// `{ let mut acc = <plumbing>::new_string(); acc.push(p1); ...; acc }`
pub open spec fn concat_tree(k: KrateView, pieces: Seq<TreeView>) -> TreeView {
    TreeView::Group(
        Delimiter::Brace,
        let_head() + call_trees(k, "new_string"@, Seq::empty()) + seq![punct(';', Spacing::Alone)]
            + push_stmts(pieces) + seq![acc_tree()],
        Span::CallSite,
    )
}

/// The expression that a part stands for.
pub open spec fn part_tree(k: KrateView, p: PartView) -> TreeView {
    match p {
        PartView::Arg(t) => t,
        PartView::Combined(ps) => concat_tree(k, ps),
        PartView::Splat(t) => t,
    }
}

/// `target.arg(part);` or, for a splice, `target.args(part);`
pub open spec fn arg_stmt(k: KrateView, target: TreeView, p: PartView) -> Seq<TreeView> {
    seq![target] + method_trees(
        k,
        if p is Splat {
            "args"@
        } else {
            "arg"@
        },
        seq![part_tree(k, p)],
    ) + seq![punct(';', Spacing::Alone)]
}

pub open spec fn arg_stmts(k: KrateView, target: TreeView, ps: Seq<PartView>) -> Seq<TreeView>
    decreases ps.len(),
{
    if ps.len() == 0 {
        Seq::empty()
    } else {
        arg_stmts(k, target, ps.drop_last()) + arg_stmt(k, target, ps.last())
    }
}

/// `{ let mut acc = <head>; acc.arg(..); ...; acc }`
pub open spec fn builder_block(k: KrateView, head: Seq<TreeView>, ps: Seq<PartView>) -> TreeView {
    TreeView::Group(
        Delimiter::Brace,
        let_head() + head + seq![punct(';', Spacing::Alone)] + arg_stmts(k, acc_tree(), ps) + seq![
            acc_tree(),
        ],
        Span::CallSite,
    )
}

/// The span a diagnostic about a part points at.
pub open spec fn part_span(p: PartView) -> Span {
    match p {
        PartView::Arg(t) => span_of(t),
        PartView::Combined(ps) => span_of(ps[0]),
        PartView::Splat(t) => span_of(t),
    }
}

/// What a macro call yields before its diagnostics are appended: the code, or
/// none when it failed, and the diagnostics.
pub type Expansion = (Option<Seq<TreeView>>, Seq<(Seq<char>, Span)>);

/// `cmd!`: the first part is the program, the others are arguments.
pub open spec fn expand_cmd_spec(input: Seq<TreeView>) -> Expansion {
    let (k, used) = krate_spec(input);
    let (parts, errs) = lex_input_spec(input, used, k);
    match parts {
        Option::None => (Option::None, errs),
        Option::Some(ps) => if ps.len() == 0 {
            (
                Option::None,
                errs.push(("expected the command to be specified"@, Span::CallSite)),
            )
        } else {
            let head = call_trees(k, "new_cmd"@, seq![part_tree(k, ps[0])]);
            if ps.len() == 1 {
                (Option::Some(head), errs)
            } else {
                (Option::Some(seq![builder_block(k, head, ps.drop_first())]), errs)
            }
        },
    }
}

/// `arg!`: exactly one part, which is not a splice.
pub open spec fn expand_arg_spec(input: Seq<TreeView>) -> Expansion {
    let (k, used) = krate_spec(input);
    let (parts, errs) = lex_input_spec(input, used, k);
    match parts {
        Option::None => (Option::None, errs),
        Option::Some(ps) => if ps.len() == 0 {
            (Option::None, errs.push(("expected the argument"@, Span::CallSite)))
        } else {
            let errs2 = if ps.len() >= 2 {
                errs.push(("expected at most one argument"@, part_span(ps[1])))
            } else {
                errs
            };
            if ps[0] is Splat {
                (
                    Option::None,
                    errs2.push(
                        (
                            "splat arguments are not yet supported, use args! instead"@,
                            part_span(ps[0]),
                        ),
                    ),
                )
            } else {
                (Option::Some(call_trees(k, "new_arg"@, seq![part_tree(k, ps[0])])), errs2)
            }
        },
    }
}

/// `args!`: any number of parts.
pub open spec fn expand_args_spec(input: Seq<TreeView>) -> Expansion {
    let (k, used) = krate_spec(input);
    let (parts, errs) = lex_input_spec(input, used, k);
    match parts {
        Option::None => (Option::None, errs),
        Option::Some(ps) => {
            let head = call_trees(k, "new_args"@, Seq::empty());
            if ps.len() == 0 {
                (Option::Some(head), errs)
            } else {
                (Option::Some(seq![builder_block(k, head, ps)]), errs)
            }
        },
    }
}

/// `compile_error!("message");`
pub open spec fn error_trees(e: (Seq<char>, Span)) -> Seq<TreeView> {
    seq![
        TreeView::Ident("compile_error"@, e.1),
        punct('!', Spacing::Alone),
        TreeView::Group(
            Delimiter::Parenthesis,
            seq![TreeView::StrLiteral(e.0, Span::CallSite)],
            Span::CallSite,
        ),
        punct(';', Spacing::Alone),
    ]
}

pub open spec fn errors_trees(es: Seq<(Seq<char>, Span)>) -> Seq<TreeView>
    decreases es.len(),
{
    if es.len() == 0 {
        Seq::empty()
    } else {
        errors_trees(es.drop_last()) + error_trees(es.last())
    }
}

/// The tokens a macro call expands to: its code followed by its diagnostics,
/// or its diagnostics alone.
pub open spec fn macro_output(e: Expansion) -> Seq<TreeView> {
    match e.0 {
        Option::Some(code) => code + errors_trees(e.1),
        Option::None => errors_trees(e.1),
    }
}


pub open spec fn opt_string_view(o: Option<String>) -> Option<Seq<char>> {
    match o {
        Option::Some(s) => Option::Some(s@),
        Option::None => Option::None,
    }
}

fn push_tree(acc: &mut Vec<TokenTree>, t: TokenTree)
    ensures
        stream_view(*final(acc)) == stream_view(*old(acc)).push(t@),
{
    proof {
        lemma_trees_view_push(acc@, t);
    }
    acc.push(t);
}

fn mk_punct(ch: char, spacing: Spacing) -> (r: TokenTree)
    ensures
        r@ == punct(ch, spacing),
{
    TokenTree::Punct { ch, spacing, span: Span::CallSite }
}

fn mk_ident(name: &str, span: Span) -> (r: TokenTree)
    ensures
        r@ == TreeView::Ident(name@, span),
{
    TokenTree::Ident { name: name.to_owned(), span }
}

fn mk_group(delimiter: Delimiter, stream: Vec<TokenTree>) -> (r: TokenTree)
    ensures
        r@ == TreeView::Group(delimiter, stream_view(stream), Span::CallSite),
{
    TokenTree::Group { delimiter, stream, span: Span::CallSite }
}

/// A stream of one tree.
fn single(t: TokenTree) -> (r: Vec<TokenTree>)
    ensures
        stream_view(r) == seq![t@],
{
    let mut v: Vec<TokenTree> = Vec::new();
    push_tree(&mut v, t);
    assert(trees_view(v@) =~= seq![t@]);
    v
}

/// Strips one `quote` from each end of the text.
pub fn trim_quotes(text: &str, quote: char) -> (r: Option<String>)
    ensures
        opt_string_view(r) == trim_quotes_spec(text@, quote),
{
    let n = text.unicode_len();
    if n >= 2 && text.get_char(0) == quote && text.get_char(n - 1) == quote {
        Some(text.substring_char(1, n - 1).to_owned())
    } else {
        None
    }
}

/// The text of the string literal that the token stands for.
pub fn string_literal(input: &TokenTree, errors: &mut Errors) -> (r: Result<
    (String, Span),
    ErrorGuaranteed,
>)
    ensures
        match string_literal_spec(input@) {
            Result::Ok((x, span)) => {
                &&& r matches Ok((s, sp)) && s@ == x && sp == span
                &&& final(errors)@ == old(errors)@
            },
            Result::Err(e) => {
                &&& r is Err
                &&& final(errors)@ == old(errors)@.push(e)
            },
        },
{
    let literal: Option<(&String, Span)> = match input {
        TokenTree::Literal { repr, span } => Some((repr, *span)),
        TokenTree::Group { delimiter, stream, .. } => {
            proof {
                lemma_trees_view(stream@);
            }
            match delimiter {
                Delimiter::Invisible => {
                    if stream.len() == 1 {
                        match &stream[0] {
                            TokenTree::Literal { repr, span } => Some((repr, *span)),
                            _ => None,
                        }
                    } else {
                        None
                    }
                },
                _ => None,
            }
        },
        _ => None,
    };
    match literal {
        None => Err(errors.emit("expected string literal", input.span())),
        Some((repr, span)) => {
            if let Some(text) = trim_quotes(repr.as_str(), '\'') {
                return Ok((text, span));
            }
            if let Some(text) = trim_quotes(repr.as_str(), '"') {
                return Ok((text, span));
            }
            Err(errors.emit("expected string literal", span))
        },
    }
}

/// Where the generated code finds the helper functions.
pub struct Krate {
    pub full_span: Span,
    pub private_span: Span,
    pub plumbing: Vec<TokenTree>,
}

impl View for Krate {
    type V = KrateView;

    open spec fn view(&self) -> KrateView {
        KrateView {
            full_span: self.full_span,
            private_span: self.private_span,
            plumbing: stream_view(self.plumbing),
        }
    }
}

impl Krate {
    /// Reads the optional parenthesized path at the start of the input; returns
    /// the number of tokens it used.
    pub fn new(input: &Vec<TokenTree>) -> (r: (Krate, usize))
        ensures
            r.0@ == krate_spec(stream_view(*input)).0,
            r.1 as int == krate_spec(stream_view(*input)).1,
    {
        proof {
            lemma_trees_view(input@);
        }
        if input.len() > 0 {
            match &input[0] {
                TokenTree::Group { delimiter: Delimiter::Parenthesis, stream, .. } => {
                    let plumbing = crate::tokens::copy_stream(stream);
                    return (
                        Krate { full_span: Span::CallSite, private_span: Span::MixedSite, plumbing },
                        1,
                    );
                },
                _ => {},
            }
        }
        let mut plumbing: Vec<TokenTree> = Vec::new();
        push_tree(&mut plumbing, mk_punct(':', Spacing::Joint));
        push_tree(&mut plumbing, mk_punct(':', Spacing::Alone));
        push_tree(&mut plumbing, mk_ident("xproc", Span::MixedSite));
        push_tree(&mut plumbing, mk_punct(':', Spacing::Joint));
        push_tree(&mut plumbing, mk_punct(':', Spacing::Alone));
        push_tree(&mut plumbing, mk_ident("plumbing", Span::MixedSite));
        assert(stream_view(plumbing) =~= default_plumbing());
        (Krate { full_span: Span::CallSite, private_span: Span::MixedSite, plumbing }, 0)
    }

    /// `<plumbing>::ident`
    fn plumbing(&self, ident: &str, acc: &mut Vec<TokenTree>)
        ensures
            stream_view(*final(acc)) == stream_view(*old(acc)) + self@.plumbing + seq![
                punct(':', Spacing::Joint),
                punct(':', Spacing::Alone),
                TreeView::Ident(ident@, self.private_span),
            ],
    {
        let span = self.private_span;
        extend_copy(acc, &self.plumbing);
        push_tree(acc, mk_punct(':', Spacing::Joint));
        push_tree(acc, mk_punct(':', Spacing::Alone));
        push_tree(acc, mk_ident(ident, span));
    }

    /// `<plumbing>::ident(args)`
    fn call(&self, ident: &str, args: Vec<TokenTree>, acc: &mut Vec<TokenTree>)
        ensures
            stream_view(*final(acc)) == stream_view(*old(acc)) + call_trees(
                self@,
                ident@,
                stream_view(args),
            ),
    {
        self.plumbing(ident, acc);
        push_tree(acc, mk_group(Delimiter::Parenthesis, args));
    }

    /// `.ident(args)`
    fn method(&self, ident: &str, args: Vec<TokenTree>, acc: &mut Vec<TokenTree>)
        ensures
            stream_view(*final(acc)) == stream_view(*old(acc)) + method_trees(
                self@,
                ident@,
                stream_view(args),
            ),
    {
        let span = self.private_span;
        push_tree(acc, mk_punct('.', Spacing::Alone));
        push_tree(acc, mk_ident(ident, span));
        push_tree(acc, mk_group(Delimiter::Parenthesis, args));
    }
}

impl Krate {
    /// `<plumbing>::new_string()`
    fn new_string(&self, acc: &mut Vec<TokenTree>)
        ensures
            stream_view(*final(acc)) == stream_view(*old(acc)) + call_trees(
                self@,
                "new_string"@,
                Seq::empty(),
            ),
    {
        let v: Vec<TokenTree> = Vec::new();
        assert(stream_view(v) =~= Seq::<TreeView>::empty());
        self.call("new_string", v, acc);
    }

    /// `<plumbing>::new_cmd(cmd)`
    fn new_cmd(&self, cmd: TokenTree, acc: &mut Vec<TokenTree>)
        ensures
            stream_view(*final(acc)) == stream_view(*old(acc)) + call_trees(
                self@,
                "new_cmd"@,
                seq![cmd@],
            ),
    {
        self.call("new_cmd", single(cmd), acc);
    }

    /// `<plumbing>::new_arg(arg)`
    fn new_arg(&self, arg: TokenTree, acc: &mut Vec<TokenTree>)
        ensures
            stream_view(*final(acc)) == stream_view(*old(acc)) + call_trees(
                self@,
                "new_arg"@,
                seq![arg@],
            ),
    {
        self.call("new_arg", single(arg), acc);
    }

    /// `<plumbing>::new_args()`
    fn new_args(&self, acc: &mut Vec<TokenTree>)
        ensures
            stream_view(*final(acc)) == stream_view(*old(acc)) + call_trees(
                self@,
                "new_args"@,
                Seq::empty(),
            ),
    {
        let v: Vec<TokenTree> = Vec::new();
        assert(stream_view(v) =~= Seq::<TreeView>::empty());
        self.call("new_args", v, acc);
    }

    /// `.arg(arg)`
    fn arg_method(&self, arg: TokenTree, acc: &mut Vec<TokenTree>)
        ensures
            stream_view(*final(acc)) == stream_view(*old(acc)) + method_trees(
                self@,
                "arg"@,
                seq![arg@],
            ),
    {
        self.method("arg", single(arg), acc);
    }

    /// `.args(args)`
    fn args_method(&self, args: TokenTree, acc: &mut Vec<TokenTree>)
        ensures
            stream_view(*final(acc)) == stream_view(*old(acc)) + method_trees(
                self@,
                "args"@,
                seq![args@],
            ),
    {
        self.method("args", single(args), acc);
    }
}

/// `let mut ident = <init>;`, returning the variable.
fn let_mut(ident: &str, acc: &mut Vec<TokenTree>, init: Vec<TokenTree>) -> (stok: TokenTree)
    ensures
        stok@ == TreeView::Ident(ident@, Span::MixedSite),
        stream_view(*final(acc)) == stream_view(*old(acc)) + let_head_of(ident@) + stream_view(
            init,
        ) + seq![punct(';', Spacing::Alone)],
{
    let span = Span::MixedSite;
    let stok = mk_ident(ident, span);
    push_tree(acc, mk_ident("let", span));
    push_tree(acc, mk_ident("mut", span));
    push_tree(acc, stok.copy());
    push_tree(acc, mk_punct('=', Spacing::Alone));
    crate::tokens::push_all(acc, init);
    push_tree(acc, mk_punct(';', Spacing::Alone));
    stok
}

/// A block that glues the pieces into one string.
fn concat_os_string(parts: &Vec<TokenTree>, krate: &Krate) -> (r: TokenTree)
    ensures
        r@ == concat_tree(krate@, stream_view(*parts)),
{
    let mut acc: Vec<TokenTree> = Vec::new();
    let mut init: Vec<TokenTree> = Vec::new();
    krate.new_string(&mut init);
    let stok = let_mut("acc", &mut acc, init);
    let ghost head = stream_view(acc);
    proof {
        lemma_trees_view(parts@);
        assert(trees_view(parts@).take(0) =~= Seq::<TreeView>::empty());
    }
    let mut i: usize = 0;
    while i < parts.len()
        invariant
            i <= parts@.len(),
            stok@ == acc_tree(),
            stream_view(acc) == head + push_stmts(trees_view(parts@).take(i as int)),
            trees_view(parts@).len() == parts@.len(),
        decreases parts@.len() - i,
    {
        proof {
            lemma_trees_view(parts@);
        }
        let ghost before = stream_view(acc);
        push_tree(&mut acc, stok.copy());
        push_tree(&mut acc, mk_punct('.', Spacing::Alone));
        push_tree(&mut acc, mk_ident("push", Span::MixedSite));
        let piece = parts[i].copy();
        assert(piece@ == tree_view(parts@[i as int]));
        let g = mk_group(Delimiter::Parenthesis, single(piece));
        assert(g@ == TreeView::Group(Delimiter::Parenthesis, seq![tree_view(parts@[i as int])], Span::CallSite));
        push_tree(&mut acc, g);
        push_tree(&mut acc, mk_punct(';', Spacing::Alone));
        proof {
            let tv = trees_view(parts@);
            assert(tv.take(i + 1).drop_last() =~= tv.take(i as int));
            assert(tv.take(i + 1).last() == tree_view(parts@[i as int]));
            assert(stream_view(acc) =~= before + push_stmt(tree_view(parts@[i as int])));
        }
        i += 1;
    }
    push_tree(&mut acc, stok);
    proof {
        lemma_trees_view(parts@);
        assert(trees_view(parts@).take(parts@.len() as int) =~= trees_view(parts@));
        assert(stream_view(acc) =~= let_head() + call_trees(krate@, "new_string"@, Seq::empty())
            + seq![punct(';', Spacing::Alone)] + push_stmts(stream_view(*parts)) + seq![
            acc_tree(),
        ]);
    }
    mk_group(Delimiter::Brace, acc)
}

impl CmdPart {
    /// The span diagnostics about this part point at.
    pub fn span(&self) -> (r: Span)
        requires
            part_wf(self@),
        ensures
            r == part_span(self@),
    {
        match self {
            CmdPart::Arg(tt) => tt.span(),
            CmdPart::Combined(parts) => {
                proof {
                    lemma_trees_view(parts@);
                }
                parts[0].span()
            },
            CmdPart::Splat(tt) => tt.span(),
        }
    }

    /// The expression the part stands for.
    pub fn into_tt(&self, krate: &Krate) -> (r: TokenTree)
        ensures
            r@ == part_tree(krate@, self@),
    {
        match self {
            CmdPart::Arg(tt) => tt.copy(),
            CmdPart::Combined(parts) => concat_os_string(parts, krate),
            CmdPart::Splat(tt) => tt.copy(),
        }
    }
}

/// `target.arg(..);` / `target.args(..);` for each part from `from` on.
fn extend_args(
    args: &Vec<CmdPart>,
    from: usize,
    target: &TokenTree,
    acc: &mut Vec<TokenTree>,
    krate: &Krate,
)
    requires
        from <= args@.len(),
    ensures
        stream_view(*final(acc)) == stream_view(*old(acc)) + arg_stmts(
            krate@,
            target@,
            parts_view(args@).skip(from as int),
        ),
{
    let ghost a0 = stream_view(*acc);
    let ghost ps = parts_view(args@).skip(from as int);
    let mut i: usize = from;
    assert(ps.take(0) =~= Seq::<PartView>::empty());
    while i < args.len()
        invariant
            from <= i <= args@.len(),
            ps == parts_view(args@).skip(from as int),
            stream_view(*acc) == a0 + arg_stmts(krate@, target@, ps.take(i - from)),
        decreases args@.len() - i,
    {
        let ghost before = stream_view(*acc);
        push_tree(acc, target.copy());
        let tt = args[i].into_tt(krate);
        let is_splat = match &args[i] {
            CmdPart::Splat(_) => true,
            _ => false,
        };
        if is_splat {
            krate.args_method(tt, acc);
        } else {
            krate.arg_method(tt, acc);
        }
        push_tree(acc, mk_punct(';', Spacing::Alone));
        proof {
            assert(ps.take(i + 1 - from).drop_last() =~= ps.take(i - from));
            assert(ps.take(i + 1 - from).last() == args@[i as int]@);
            assert(stream_view(*acc) =~= before + arg_stmt(krate@, target@, args@[i as int]@));
        }
        i += 1;
    }
    assert(ps.take(i - from) =~= ps);
}


/// The parts of the template at `start` of the input.
fn lex(input: &Vec<TokenTree>, start: usize, krate: &Krate, errors: &mut Errors) -> (r: Result<
    Vec<CmdPart>,
    ErrorGuaranteed,
>)
    ensures
        match lex_input_spec(stream_view(*input), start as int, krate@).0 {
            Option::Some(ps) => r matches Ok(v) && parts_view(v@) == ps && forall|i: int|
                0 <= i < v@.len() ==> part_wf(#[trigger] v@[i]@),
            Option::None => r is Err,
        },
        final(errors)@ == old(errors)@ + lex_input_spec(stream_view(*input), start as int, krate@).1,
{
    proof {
        lemma_trees_view(input@);
    }
    if start >= input.len() {
        let g = errors.emit("expected command", krate.full_span);
        assert(errors@ =~= old(errors)@ + seq![("expected command"@, krate.full_span)]);
        return Err(g);
    }
    let (text, span) = match string_literal(&input[start], errors) {
        Ok(x) => x,
        Err(g) => {
            assert(errors@ =~= old(errors)@ + lex_input_spec(
                stream_view(*input),
                start as int,
                krate@,
            ).1);
            return Err(g);
        },
    };
    let args = lex_template(text.as_str(), span, krate.private_span, errors);
    if start + 1 < input.len() {
        let tok_span = input[start + 1].span();
        errors.emit("interpolation arguments are not yet supported", tok_span);
    }
    assert(errors@ =~= old(errors)@ + lex_input_spec(stream_view(*input), start as int, krate@).1);
    Ok(args)
}

/// The body of `cmd!`.
fn cmd_body(input: &Vec<TokenTree>, errors: &mut Errors) -> (r: Result<Vec<TokenTree>, ErrorGuaranteed>)
    ensures
        match expand_cmd_spec(stream_view(*input)).0 {
            Option::Some(code) => r matches Ok(v) && stream_view(v) == code,
            Option::None => r is Err,
        },
        final(errors)@ == old(errors)@ + expand_cmd_spec(stream_view(*input)).1,
{
    let (krate, used) = Krate::new(input);
    let args = match lex(input, used, &krate, errors) {
        Ok(a) => a,
        Err(g) => return Err(g),
    };
    if args.len() == 0 {
        let g = errors.emit("expected the command to be specified", Span::CallSite);
        assert(errors@ =~= old(errors)@ + expand_cmd_spec(stream_view(*input)).1);
        return Err(g);
    }
    assert(errors@ =~= old(errors)@ + expand_cmd_spec(stream_view(*input)).1);
    let mut acc: Vec<TokenTree> = Vec::new();
    let mut head: Vec<TokenTree> = Vec::new();
    let cmd_tt = args[0].into_tt(&krate);
    krate.new_cmd(cmd_tt, &mut head);
    if args.len() == 1 {
        assert(stream_view(head) =~= expand_cmd_spec(stream_view(*input)).0.unwrap());
        return Ok(head);
    }
    let ghost head_view = stream_view(head);
    let stok = let_mut("acc", &mut acc, head);
    extend_args(&args, 1, &stok, &mut acc, &krate);
    push_tree(&mut acc, stok);
    let tt = mk_group(Delimiter::Brace, acc);
    proof {
        assert(parts_view(args@).skip(1) =~= parts_view(args@).drop_first());
        assert(stream_view(acc) =~= let_head() + head_view + seq![punct(';', Spacing::Alone)]
            + arg_stmts(krate@, acc_tree(), parts_view(args@).drop_first()) + seq![acc_tree()]);
    }
    Ok(single(tt))
}

/// The body of `arg!`.
fn arg_body(input: &Vec<TokenTree>, errors: &mut Errors) -> (r: Result<Vec<TokenTree>, ErrorGuaranteed>)
    ensures
        match expand_arg_spec(stream_view(*input)).0 {
            Option::Some(code) => r matches Ok(v) && stream_view(v) == code,
            Option::None => r is Err,
        },
        final(errors)@ == old(errors)@ + expand_arg_spec(stream_view(*input)).1,
{
    let (krate, used) = Krate::new(input);
    let args = match lex(input, used, &krate, errors) {
        Ok(a) => a,
        Err(g) => return Err(g),
    };
    if args.len() == 0 {
        let g = errors.emit("expected the argument", Span::CallSite);
        assert(errors@ =~= old(errors)@ + expand_arg_spec(stream_view(*input)).1);
        return Err(g);
    }
    if args.len() >= 2 {
        assert(part_wf(args@[1]@));
        let sp = args[1].span();
        errors.emit("expected at most one argument", sp);
    }
    assert(part_wf(args@[0]@));
    let is_splat = match &args[0] {
        CmdPart::Splat(_) => true,
        _ => false,
    };
    if is_splat {
        let sp = args[0].span();
        let g = errors.emit("splat arguments are not yet supported, use args! instead", sp);
        assert(errors@ =~= old(errors)@ + expand_arg_spec(stream_view(*input)).1);
        return Err(g);
    }
    assert(errors@ =~= old(errors)@ + expand_arg_spec(stream_view(*input)).1);
    let mut acc: Vec<TokenTree> = Vec::new();
    let arg_tt = args[0].into_tt(&krate);
    krate.new_arg(arg_tt, &mut acc);
    assert(stream_view(acc) =~= expand_arg_spec(stream_view(*input)).0.unwrap());
    Ok(acc)
}

/// The body of `args!`.
fn args_body(input: &Vec<TokenTree>, errors: &mut Errors) -> (r: Result<Vec<TokenTree>, ErrorGuaranteed>)
    ensures
        match expand_args_spec(stream_view(*input)).0 {
            Option::Some(code) => r matches Ok(v) && stream_view(v) == code,
            Option::None => r is Err,
        },
        final(errors)@ == old(errors)@ + expand_args_spec(stream_view(*input)).1,
{
    let (krate, used) = Krate::new(input);
    let args = match lex(input, used, &krate, errors) {
        Ok(a) => a,
        Err(g) => return Err(g),
    };
    let mut acc: Vec<TokenTree> = Vec::new();
    if args.len() == 0 {
        krate.new_args(&mut acc);
        assert(stream_view(acc) =~= expand_args_spec(stream_view(*input)).0.unwrap());
        return Ok(acc);
    }
    let mut head: Vec<TokenTree> = Vec::new();
    krate.new_args(&mut head);
    let ghost head_view = stream_view(head);
    let stok = let_mut("acc", &mut acc, head);
    extend_args(&args, 0, &stok, &mut acc, &krate);
    push_tree(&mut acc, stok);
    proof {
        assert(parts_view(args@).skip(0) =~= parts_view(args@));
        assert(stream_view(acc) =~= let_head() + head_view + seq![punct(';', Spacing::Alone)]
            + arg_stmts(krate@, acc_tree(), parts_view(args@)) + seq![acc_tree()]);
    }
    let tt = mk_group(Delimiter::Brace, acc);
    Ok(single(tt))
}

impl MacroError {
    /// Appends `compile_error!("message");` pointing at the diagnostic's span.
    pub fn append_to(&self, acc: &mut Vec<TokenTree>)
        ensures
            stream_view(*final(acc)) == stream_view(*old(acc)) + error_trees(
                (self.message@, self.span),
            ),
    {
        let ghost before = stream_view(*acc);
        push_tree(acc, mk_ident("compile_error", self.span));
        push_tree(acc, mk_punct('!', Spacing::Alone));
        let lit = TokenTree::StrLiteral { value: self.message.clone(), span: Span::CallSite };
        push_tree(acc, mk_group(Delimiter::Parenthesis, single(lit)));
        push_tree(acc, mk_punct(';', Spacing::Alone));
        assert(stream_view(*acc) =~= before + error_trees((self.message@, self.span)));
    }
}

impl Errors {
    /// Appends `compile_error!("..");` for each diagnostic.
    pub fn append_to(&self, acc: &mut Vec<TokenTree>)
        ensures
            stream_view(*final(acc)) == stream_view(*old(acc)) + errors_trees(self@),
    {
        let ghost a0 = stream_view(*acc);
        let mut i: usize = 0;
        assert(self@.take(0) =~= Seq::<(Seq<char>, Span)>::empty());
        while i < self.errors.len()
            invariant
                i <= self.errors@.len(),
                self@.len() == self.errors@.len(),
                stream_view(*acc) == a0 + errors_trees(self@.take(i as int)),
            decreases self.errors@.len() - i,
        {
            let ghost before = stream_view(*acc);
            let e = &self.errors[i];
            e.append_to(acc);
            proof {
                assert(self@.take(i + 1).drop_last() =~= self@.take(i as int));
                assert(self@.take(i + 1).last() == (e.message@, e.span));
            }
            i += 1;
        }
        assert(self@.take(i as int) =~= self@);
    }

    /// The diagnostics alone, for a failed call.
    pub fn to_error(&self, guar: ErrorGuaranteed) -> (r: Vec<TokenTree>)
        requires
            self@.len() > 0,
        ensures
            stream_view(r) == errors_trees(self@),
    {
        let _ = guar;
        let mut acc: Vec<TokenTree> = Vec::new();
        self.append_to(&mut acc);
        assert(stream_view(acc) =~= errors_trees(self@));
        acc
    }
}

/// Which of the macros is expanded.
#[derive(Clone, Copy, PartialEq, Eq, Structural)]
pub enum MacroKind {
    Cmd,
    Arg,
    Args,
}

pub open spec fn expand_spec(kind: MacroKind, input: Seq<TreeView>) -> Expansion {
    match kind {
        MacroKind::Cmd => expand_cmd_spec(input),
        MacroKind::Arg => expand_arg_spec(input),
        MacroKind::Args => expand_args_spec(input),
    }
}

/// A failed expansion always carries a diagnostic.
pub proof fn lemma_failure_is_reported(kind: MacroKind, input: Seq<TreeView>)
    ensures
        expand_spec(kind, input).0 is None ==> expand_spec(kind, input).1.len() > 0,
{
    let (k, used) = krate_spec(input);
    let l = lex_input_spec(input, used, k);
    if l.0 is None {
        if used >= input.len() {
        } else {
            match string_literal_spec(input[used]) {
                Result::Err(e) => {},
                Result::Ok(_) => {},
            }
        }
    }
}

/// Runs the expansion and turns its diagnostics into `compile_error!` calls.
pub fn try_macro(input: Vec<TokenTree>, kind: MacroKind) -> (r: Vec<TokenTree>)
    ensures
        stream_view(r) == macro_output(expand_spec(kind, stream_view(input))),
{
    let mut errors = Errors::new();
    let res = match kind {
        MacroKind::Cmd => cmd_body(&input, &mut errors),
        MacroKind::Arg => arg_body(&input, &mut errors),
        MacroKind::Args => args_body(&input, &mut errors),
    };
    proof {
        lemma_failure_is_reported(kind, stream_view(input));
        assert(errors@ =~= expand_spec(kind, stream_view(input)).1);
    }
    match res {
        Ok(mut output) => {
            errors.append_to(&mut output);
            output
        },
        Err(guar) => errors.to_error(guar),
    }
}

/// Expands `cmd!`: a command built from the template string.
pub fn cmd(input: Vec<TokenTree>) -> (r: Vec<TokenTree>)
    ensures
        stream_view(r) == macro_output(expand_cmd_spec(stream_view(input))),
{
    try_macro(input, MacroKind::Cmd)
}

/// Expands `arg!`: one argument built from the template string.
pub fn arg(input: Vec<TokenTree>) -> (r: Vec<TokenTree>)
    ensures
        stream_view(r) == macro_output(expand_arg_spec(stream_view(input))),
{
    try_macro(input, MacroKind::Arg)
}

/// Expands `args!`: a list of arguments built from the template string.
pub fn args(input: Vec<TokenTree>) -> (r: Vec<TokenTree>)
    ensures
        stream_view(r) == macro_output(expand_args_spec(stream_view(input))),
{
    try_macro(input, MacroKind::Args)
}

} // verus!
