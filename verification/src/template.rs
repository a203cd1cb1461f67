//! The template language of the command macros: a lexer from the template text
//! to tokens, and the grouping of tokens into command-line parts.

use vstd::prelude::*;
use crate::text::{first_index, is_whitespace, lemma_first_index, scan, stops, trim_start, Stop};
use crate::tokens::{
    lemma_trees_view, tree_view, trees_view, Delimiter, Spacing, Span, TokenTree, TreeView,
};

verus! {

/// A diagnostic of a macro call: a message and where it points.
pub struct MacroError {
    pub message: String,
    pub span: Span,
}

/// The diagnostics that a macro call has collected so far.
pub struct Errors {
    pub errors: Vec<MacroError>,
}

/// Witness that at least one diagnostic was emitted.
#[derive(Clone, Copy)]
pub struct ErrorGuaranteed(());

pub open spec fn errors_view(v: Seq<MacroError>) -> Seq<(Seq<char>, Span)> {
    Seq::new(v.len(), |i: int| (v[i].message@, v[i].span))
}

impl View for Errors {
    type V = Seq<(Seq<char>, Span)>;

    open spec fn view(&self) -> Seq<(Seq<char>, Span)> {
        errors_view(self.errors@)
    }
}

impl Errors {
    pub fn new() -> (r: Errors)
        ensures
            r@ == Seq::<(Seq<char>, Span)>::empty(),
    {
        Errors { errors: Vec::new() }
    }

    /// Records a diagnostic.
    pub fn emit(&mut self, message: &str, span: Span) -> (r: ErrorGuaranteed)
        ensures
            final(self)@ == old(self)@.push((message@, span)),
    {
        self.errors.push(MacroError { message: message.to_owned(), span });
        assert(self@ =~= old(self)@.push((message@, span)));
        ErrorGuaranteed(())
    }
}

/// What a template token is.
#[derive(Clone, Copy, PartialEq, Eq, Structural)]
pub enum TokenKind {
    /// A bare word.
    Word,
    /// Text between single quotes.
    Quoted,
    /// `{name}` or `{name..}`.
    Interpolation { splat: bool, inline: bool },
}

/// The value of a template token.
pub struct TokenView {
    /// No whitespace separates the token from the one before.
    pub joined_to_prev: bool,
    pub kind: TokenKind,
    pub text: Seq<char>,
    pub span: Span,
}

/// A template token: a slice of the template text.
pub struct Token<'a> {
    pub joined_to_prev: bool,
    pub kind: TokenKind,
    pub text: &'a str,
    pub span: Span,
}

impl<'a> View for Token<'a> {
    type V = TokenView;

    open spec fn view(&self) -> TokenView {
        TokenView {
            joined_to_prev: self.joined_to_prev,
            kind: self.kind,
            text: self.text@,
            span: self.span,
        }
    }
}

/// One step of the lexer on the text that is left.
pub enum LexStep {
    /// Nothing but whitespace is left.
    End,
    /// The next token, and the text after it.
    Emit(TokenView, Seq<char>),
    /// An opening `{` or `'` that nothing closes, with the message reported for it.
    Unclosed(Seq<char>),
}

/// `text` between quotes that end at the first closing character.
pub open spec fn delimited_step(
    t: Seq<char>,
    close: char,
    joined: bool,
    span: Span,
    unclosed: Seq<char>,
) -> LexStep {
    let body = t.skip(1);
    let k = first_index(body, Stop::At(close)) as int;
    if k == body.len() {
        LexStep::Unclosed(unclosed)
    } else {
        let part = body.take(k);
        let rest = body.skip(k + 1);
        if close == '}' {
            let splat = part.len() >= 2 && part[part.len() - 2] == '.' && part[part.len() - 1]
                == '.';
            let name = if splat {
                part.take(part.len() - 2)
            } else {
                part
            };
            LexStep::Emit(
                TokenView {
                    joined_to_prev: joined,
                    kind: TokenKind::Interpolation { splat, inline: name.len() > 0 },
                    text: name,
                    span,
                },
                rest,
            )
        } else {
            LexStep::Emit(
                TokenView { joined_to_prev: joined, kind: TokenKind::Quoted, text: part, span },
                rest,
            )
        }
    }
}

/// The lexer's step: skip whitespace, then read an interpolation `{..}`,
/// a quoted string `'..'` or a bare word up to whitespace, a quote or a brace.
pub open spec fn lex_step(s: Seq<char>, span: Span) -> LexStep {
    let t = trim_start(s);
    let joined = t.len() == s.len();
    if t.len() == 0 {
        LexStep::End
    } else if t[0] == '{' {
        delimited_step(t, '}', joined, span, "unclosed `{` in command"@)
    } else if t[0] == '\'' {
        delimited_step(t, '\'', joined, span, "unclosed `'` in command"@)
    } else {
        let k = first_index(t, Stop::WordEnd) as int;
        LexStep::Emit(
            TokenView { joined_to_prev: joined, kind: TokenKind::Word, text: t.take(k), span },
            t.skip(k),
        )
    }
}

/// The tokens of a template text, and the message of the unclosed delimiter
/// that ended it, if one did. (Every step consumes text, see
/// `lemma_lex_step_shrinks`, so the last branch is never taken.)
pub open spec fn lex_text(s: Seq<char>, span: Span) -> (Seq<TokenView>, Option<Seq<char>>)
    decreases s.len(),
{
    match lex_step(s, span) {
        LexStep::End => (Seq::empty(), Option::None),
        LexStep::Unclosed(m) => (Seq::empty(), Option::Some(m)),
        LexStep::Emit(t, rest) => if rest.len() < s.len() {
            let r = lex_text(rest, span);
            (seq![t] + r.0, r.1)
        } else {
            (seq![t], Option::None)
        },
    }
}

/// Each step of the lexer consumes text.
pub proof fn lemma_lex_step_shrinks(s: Seq<char>, span: Span)
    ensures
        lex_step(s, span) matches LexStep::Emit(_, rest) ==> rest.len() < s.len(),
{
    let f = first_index(s, Stop::NonWhitespace);
    lemma_first_index(s, Stop::NonWhitespace);
    let t = trim_start(s);
    if t.len() > 0 {
        if t[0] == '{' || t[0] == '\'' {
            let close = if t[0] == '{' { '}' } else { '\'' };
            lemma_first_index(t.skip(1), Stop::At(close));
        } else {
            lemma_first_index(t, Stop::WordEnd);
            assert(!is_whitespace(t[0]));
            assert(!stops(Stop::WordEnd, t[0]));
        }
    }
}

pub struct TextCursor<'a> {
    pub left: &'a str,
    pub span: Span,
}

impl<'a> TextCursor<'a> {
    pub fn new(text: &'a str, span: Span) -> (r: Self)
        ensures
            r.left@ == text@,
            r.span == span,
    {
        TextCursor { left: text, span }
    }

    /// Skips leading whitespace; says whether there was any.
    pub fn eat_spaces(&mut self) -> (ate: bool)
        ensures
            final(self).left@ == trim_start(old(self).left@),
            final(self).span == old(self).span,
            ate == (trim_start(old(self).left@).len() != old(self).left@.len()),
    {
        proof {
            lemma_first_index(self.left@, Stop::NonWhitespace);
        }
        let k = scan(self.left, Stop::NonWhitespace);
        let n = self.left.unicode_len();
        self.left = self.left.substring_char(k, n);
        k != 0
    }

    /// Reads the next token; on an unclosed delimiter reports it and consumes the rest.
    pub fn eat_token(&mut self, errors: &mut Errors) -> (r: Result<Option<Token<'a>>, ErrorGuaranteed>)
        ensures
            final(self).span == old(self).span,
            match lex_step(old(self).left@, old(self).span) {
                LexStep::End => {
                    &&& r matches Ok(None)
                    &&& final(errors)@ == old(errors)@
                    &&& final(self).left@.len() == 0
                },
                LexStep::Emit(tv, rest) => {
                    &&& r matches Ok(Some(t)) && t@ == tv
                    &&& final(errors)@ == old(errors)@
                    &&& final(self).left@ == rest
                },
                LexStep::Unclosed(m) => {
                    &&& r is Err
                    &&& final(errors)@ == old(errors)@.push((m, old(self).span))
                    &&& final(self).left@.len() == 0
                },
            },
    {
        let ghost s = self.left@;
        let joined_to_prev = !self.eat_spaces();
        let text = self.left;
        let n = text.unicode_len();
        if n == 0 {
            return Ok(None);
        }
        let span = self.span;
        let c0 = text.get_char(0);
        if c0 == '{' || c0 == '\'' {
            let close = if c0 == '{' { '}' } else { '\'' };
            let body = text.substring_char(1, n);
            assert(body@ == text@.skip(1));
            proof {
                lemma_first_index(body@, Stop::At(close));
            }
            let k = scan(body, Stop::At(close));
            let m = n - 1;
            if k == m {
                if c0 == '{' {
                    return Err(self.emit_error(errors, "unclosed `{` in command"));
                } else {
                    return Err(self.emit_error(errors, "unclosed `'` in command"));
                }
            }
            let part = body.substring_char(0, k);
            let rest = body.substring_char(k + 1, m);
            self.left = rest;
            if c0 == '\'' {
                return Ok(Some(Token { joined_to_prev, kind: TokenKind::Quoted, text: part, span }));
            }
            let splat = k >= 2 && part.get_char(k - 2) == '.' && part.get_char(k - 1) == '.';
            let name = if splat {
                part.substring_char(0, k - 2)
            } else {
                part
            };
            let inline = if splat {
                k - 2 != 0
            } else {
                k != 0
            };
            return Ok(
                Some(
                    Token {
                        joined_to_prev,
                        kind: TokenKind::Interpolation { splat, inline },
                        text: name,
                        span,
                    },
                ),
            );
        }
        proof {
            lemma_first_index(text@, Stop::WordEnd);
        }
        let k = scan(text, Stop::WordEnd);
        let part = text.substring_char(0, k);
        self.left = text.substring_char(k, n);
        Ok(Some(Token { joined_to_prev, kind: TokenKind::Word, text: part, span }))
    }

    /// Reports `message` at the cursor's span and drops the rest of the text.
    pub fn emit_error(&mut self, errors: &mut Errors, message: &str) -> (r: ErrorGuaranteed)
        ensures
            final(errors)@ == old(errors)@.push((message@, old(self).span)),
            final(self).span == old(self).span,
            final(self).left@.len() == 0,
    {
        self.left = "";
        proof {
            reveal_strlit("");
        }
        errors.emit(message, self.span)
    }
}


/// A part of a command line: one argument, one argument glued from several
/// pieces, or a splice of many arguments.
pub enum CmdPart {
    Arg(TokenTree),
    Combined(Vec<TokenTree>),
    Splat(TokenTree),
}

pub enum PartView {
    Arg(TreeView),
    Combined(Seq<TreeView>),
    Splat(TreeView),
}

impl View for CmdPart {
    type V = PartView;

    open spec fn view(&self) -> PartView {
        match self {
            CmdPart::Arg(t) => PartView::Arg(tree_view(*t)),
            CmdPart::Combined(v) => PartView::Combined(trees_view(v@)),
            CmdPart::Splat(t) => PartView::Splat(tree_view(*t)),
        }
    }
}

/// A glued argument has at least one piece.
pub open spec fn part_wf(p: PartView) -> bool {
    p matches PartView::Combined(ps) ==> ps.len() > 0
}

pub open spec fn parts_view(s: Seq<CmdPart>) -> Seq<PartView> {
    Seq::new(s.len(), |i: int| s[i]@)
}

/// Gluing a piece onto a part: an argument becomes a glued argument, a glued
/// argument grows, a splice stays as it is.
pub open spec fn extend_part(p: PartView, t: TreeView) -> PartView {
    match p {
        PartView::Arg(a) => PartView::Combined(seq![a, t]),
        PartView::Combined(ps) => PartView::Combined(ps.push(t)),
        PartView::Splat(x) => PartView::Splat(x),
    }
}

/// The tree that stands for a token: a string literal for text, an identifier
/// for an interpolation.
pub open spec fn token_tree(t: TokenView, private_span: Span) -> TreeView {
    match t.kind {
        TokenKind::Interpolation { inline, .. } => TreeView::Ident(
            t.text,
            if inline {
                t.span
            } else {
                private_span
            },
        ),
        _ => TreeView::StrLiteral(t.text, Span::CallSite),
    }
}

/// The tree that a single (non-splice) token adds to an argument: an
/// interpolated value is borrowed, `(&name)`.
pub open spec fn arg_tree(t: TokenView, private_span: Span) -> TreeView {
    match t.kind {
        TokenKind::Interpolation { .. } => TreeView::Group(
            Delimiter::Parenthesis,
            seq![TreeView::Punct('&', Spacing::Alone, Span::CallSite), token_tree(t, private_span)],
            Span::CallSite,
        ),
        _ => token_tree(t, private_span),
    }
}

pub open spec fn splat_message(text: Seq<char>) -> Seq<char> {
    "can't combine splat with concatentaion, add spaces around {"@ + text + "..}``"@
}

/// What the lexer has built after some tokens.
pub struct LexState {
    pub parts: Seq<PartView>,
    pub prev_splat: Option<TokenView>,
    pub errors: Seq<(Seq<char>, Span)>,
}

pub open spec fn initial_lex_state() -> LexState {
    LexState { parts: Seq::empty(), prev_splat: Option::None, errors: Seq::empty() }
}

/// Adds a piece: glued onto the last part when no whitespace separates them.
pub open spec fn add_piece(parts: Seq<PartView>, joined: bool, t: TreeView) -> Seq<PartView> {
    if joined && parts.len() > 0 {
        parts.update(parts.len() - 1, extend_part(parts.last(), t))
    } else {
        parts.push(PartView::Arg(t))
    }
}

/// A character that may stand in an identifier: an ASCII letter, digit or
/// `_`, or any character outside ASCII (which the compiler judges).
pub open spec fn ident_char(c: char) -> bool {
    let u = c as u32;
    ||| u >= 0x80
    ||| 0x61 <= u <= 0x7a
    ||| 0x41 <= u <= 0x5a
    ||| 0x30 <= u <= 0x39
    ||| u == 0x5f
}

/// A name that can become an identifier: it has no ASCII character other
/// than letters, digits and `_`, and does not start with a digit.
pub open spec fn name_ok(n: Seq<char>) -> bool {
    &&& forall|i: int| 0 <= i < n.len() ==> ident_char(#[trigger] n[i])
    &&& n.len() > 0 ==> !(0x30 <= (n[0] as u32) <= 0x39)
}

pub open spec fn name_message() -> Seq<char> {
    "interpolated names must be identifiers"@
}

/// Decides `name_ok`.
pub fn check_name(n: &str) -> (r: bool)
    ensures
        r == name_ok(n@),
{
    let len = n.unicode_len();
    let mut i: usize = 0;
    while i < len
        invariant
            len == n@.len(),
            i <= len,
            forall|j: int| 0 <= j < i ==> ident_char(#[trigger] n@[j]),
        decreases len - i,
    {
        let c = n.get_char(i);
        let u = c as u32;
        let ok = u >= 0x80 || (0x61 <= u && u <= 0x7a) || (0x41 <= u && u <= 0x5a) || (0x30 <= u
            && u <= 0x39) || u == 0x5f;
        if !ok {
            assert(!ident_char(n@[i as int]));
            return false;
        }
        i += 1;
    }
    if len > 0 {
        let u = n.get_char(0) as u32;
        if 0x30 <= u && u <= 0x39 {
            return false;
        }
    }
    true
}

/// One token of the template. A splice may not be glued to what follows it
/// nor to what precedes it (reported once at the splice); an interpolation
/// must name a value, by a name that can be an identifier.
pub open spec fn lex_process(st: LexState, tok: TokenView, private_span: Span) -> LexState {
    let errors = match st.prev_splat {
        Option::Some(sp) => if tok.joined_to_prev {
            st.errors.push((splat_message(sp.text), sp.span))
        } else {
            st.errors
        },
        Option::None => st.errors,
    };
    match tok.kind {
        TokenKind::Interpolation { splat, inline } => if !inline {
            LexState {
                parts: st.parts,
                prev_splat: Option::None,
                errors: errors.push(
                    ("non-inline interpolation arguments are not yet supported"@, tok.span),
                ),
            }
        } else if !name_ok(tok.text) {
            LexState {
                parts: st.parts,
                prev_splat: Option::None,
                errors: errors.push((name_message(), tok.span)),
            }
        } else if splat {
            LexState {
                parts: st.parts.push(PartView::Splat(token_tree(tok, private_span))),
                prev_splat: Option::Some(tok),
                errors: if tok.joined_to_prev && st.parts.len() > 0 && st.prev_splat is None {
                    errors.push((splat_message(tok.text), tok.span))
                } else {
                    errors
                },
            }
        } else {
            LexState {
                parts: add_piece(st.parts, tok.joined_to_prev, arg_tree(tok, private_span)),
                prev_splat: Option::None,
                errors,
            }
        },
        _ => LexState {
            parts: add_piece(st.parts, tok.joined_to_prev, arg_tree(tok, private_span)),
            prev_splat: Option::None,
            errors,
        },
    }
}

pub open spec fn lex_fold(st: LexState, toks: Seq<TokenView>, private_span: Span) -> LexState
    decreases toks.len(),
{
    if toks.len() == 0 {
        st
    } else {
        lex_fold(lex_process(st, toks[0], private_span), toks.drop_first(), private_span)
    }
}

pub open spec fn lex_finish(
    st: LexState,
    lexed: (Seq<TokenView>, Option<Seq<char>>),
    span: Span,
    private_span: Span,
) -> LexState {
    let end = lex_fold(st, lexed.0, private_span);
    match lexed.1 {
        Option::Some(m) => LexState { errors: end.errors.push((m, span)), ..end },
        Option::None => end,
    }
}

/// The parts and diagnostics of a template text.
pub open spec fn lex_template_spec(text: Seq<char>, span: Span, private_span: Span) -> LexState {
    lex_finish(initial_lex_state(), lex_text(text, span), span, private_span)
}

pub open spec fn opt_token_view(t: Option<Token>) -> Option<TokenView> {
    match t {
        Option::Some(t) => Option::Some(t@),
        Option::None => Option::None,
    }
}

impl<'a> Token<'a> {
    /// The tree that stands for the token.
    pub fn to_tt(&self, private_span: Span) -> (r: TokenTree)
        ensures
            r@ == token_tree(self@, private_span),
    {
        match self.kind {
            TokenKind::Interpolation { inline, .. } => {
                let span = if inline {
                    self.span
                } else {
                    private_span
                };
                TokenTree::Ident { name: self.text.to_owned(), span }
            },
            _ => TokenTree::StrLiteral { value: self.text.to_owned(), span: Span::CallSite },
        }
    }
}

impl CmdPart {
    /// Glues a piece onto the part.
    pub fn extend_word(self, tt: TokenTree) -> (r: CmdPart)
        ensures
            r@ == extend_part(self@, tt@),
    {
        match self {
            CmdPart::Arg(arg) => {
                let v = vec![arg, tt];
                proof {
                    lemma_trees_view(v@);
                    assert(trees_view(v@) =~= seq![tree_view(v@[0]), tree_view(v@[1])]);
                }
                CmdPart::Combined(v)
            },
            CmdPart::Combined(mut parts) => {
                proof {
                    crate::tokens::lemma_trees_view_push(parts@, tt);
                }
                parts.push(tt);
                CmdPart::Combined(parts)
            },
            CmdPart::Splat(s) => CmdPart::Splat(s),
        }
    }
}

/// Adds a piece to the parts (see `add_piece`).
fn push_piece(parts: &mut Vec<CmdPart>, joined: bool, tt: TokenTree)
    requires
        forall|i: int| 0 <= i < old(parts)@.len() ==> part_wf(#[trigger] old(parts)@[i]@),
    ensures
        forall|i: int| 0 <= i < final(parts)@.len() ==> part_wf(#[trigger] final(parts)@[i]@),
        parts_view(final(parts)@) == add_piece(parts_view(old(parts)@), joined, tt@),
{
    if joined && parts.len() > 0 {
        let last = parts.pop().unwrap();
        assert(part_wf(last@));
        let e = last.extend_word(tt);
        parts.push(e);
        assert(parts_view(parts@) =~= add_piece(parts_view(old(parts)@), joined, tt@));
    } else {
        parts.push(CmdPart::Arg(tt));
        assert(parts_view(parts@) =~= add_piece(parts_view(old(parts)@), joined, tt@));
    }
}

/// Lexes a template and groups its tokens into parts, reporting what is wrong
/// with it.
pub fn lex_template(text: &str, span: Span, private_span: Span, errors: &mut Errors) -> (r: Vec<
    CmdPart,
>)
    ensures
        parts_view(r@) == lex_template_spec(text@, span, private_span).parts,
        forall|i: int| 0 <= i < r@.len() ==> part_wf(#[trigger] r@[i]@),
        final(errors)@ == old(errors)@ + lex_template_spec(text@, span, private_span).errors,
{
    let ghost e0 = errors@;
    let ghost target = lex_template_spec(text@, span, private_span);
    let mut cursor = TextCursor::new(text, span);
    let mut args: Vec<CmdPart> = Vec::new();
    let mut prev_splat: Option<Token> = None;
    let ghost mut st = initial_lex_state();
    let mut done = false;
    assert(parts_view(args@) =~= st.parts);
    assert(errors@ =~= e0 + st.errors);
    while !done
        invariant
            cursor.span == span,
            target == lex_finish(st, lex_text(cursor.left@, span), span, private_span),
            parts_view(args@) == st.parts,
            forall|i: int| 0 <= i < args@.len() ==> part_wf(#[trigger] args@[i]@),
            opt_token_view(prev_splat) == st.prev_splat,
            errors@ == e0 + st.errors,
            done ==> lex_text(cursor.left@, span) == (
                Seq::<TokenView>::empty(),
                Option::<Seq<char>>::None,
            ),
        decreases cursor.left@.len() + if done { 0int } else { 1int },
    {
        let ghost left0 = cursor.left@;
        proof {
            lemma_lex_step_shrinks(left0, span);
        }
        match cursor.eat_token(errors) {
            Ok(Some(token)) => {
                let ghost tv = token@;
                let ghost rest = cursor.left@;
                proof {
                    let r = lex_text(rest, span);
                    assert(lex_text(left0, span) == (seq![tv] + r.0, r.1));
                    assert((seq![tv] + r.0)[0] == tv);
                    assert((seq![tv] + r.0).drop_first() =~= r.0);
                }
                let ghost st1 = lex_process(st, tv, private_span);
                let ps = prev_splat;
                prev_splat = None;
                let after_splat = match &ps {
                    Some(_) => true,
                    None => false,
                };
                if let Some(splat) = ps {
                    if token.joined_to_prev {
                        let mut msg = String::from_str(
                            "can't combine splat with concatentaion, add spaces around {",
                        );
                        msg.append(splat.text);
                        msg.append("..}``");
                        errors.emit(msg.as_str(), splat.span);
                    }
                }
                match token.kind {
                    TokenKind::Interpolation { splat, inline } => {
                        if !inline {
                            errors.emit(
                                "non-inline interpolation arguments are not yet supported",
                                token.span,
                            );
                        } else if !check_name(token.text) {
                            errors.emit("interpolated names must be identifiers", token.span);
                        } else if splat {
                            if token.joined_to_prev && args.len() > 0 && !after_splat {
                                let mut msg = String::from_str(
                                    "can't combine splat with concatentaion, add spaces around {",
                                );
                                msg.append(token.text);
                                msg.append("..}``");
                                errors.emit(msg.as_str(), token.span);
                            }
                            let tt = token.to_tt(private_span);
                            args.push(CmdPart::Splat(tt));
                            prev_splat = Some(token);
                        } else {
                            let tok = token.to_tt(private_span);
                            let amp = TokenTree::Punct {
                                ch: '&',
                                spacing: Spacing::Alone,
                                span: Span::CallSite,
                            };
                            let v = vec![amp, tok];
                            proof {
                                lemma_trees_view(v@);
                                assert(trees_view(v@) =~= seq![tree_view(v@[0]), tree_view(v@[1])]);
                            }
                            let tt = TokenTree::Group {
                                delimiter: Delimiter::Parenthesis,
                                stream: v,
                                span: Span::CallSite,
                            };
                            push_piece(&mut args, token.joined_to_prev, tt);
                        }
                    },
                    _ => {
                        let tt = token.to_tt(private_span);
                        push_piece(&mut args, token.joined_to_prev, tt);
                    },
                }
                proof {
                    st = st1;
                }
                assert(parts_view(args@) =~= st.parts);
                assert(errors@ =~= e0 + st.errors);
            },
            Ok(None) => {
                done = true;
            },
            Err(_) => {
                proof {
                    let m = lex_text(left0, span).1.unwrap();
                    st = LexState { errors: st.errors.push((m, span)), ..st };
                }
                assert(errors@ =~= e0 + st.errors);
                done = true;
            },
        }
    }
    args
}

} // verus!
