//! What the template language promises: words, quoted strings and
//! interpolations separated by whitespace become one argument each, and
//! pieces written without whitespace between them are glued into one argument.

use vstd::prelude::*;
use crate::template::{
    arg_tree, extend_part, ident_char, name_ok, initial_lex_state, lemma_lex_step_shrinks, lex_fold, lex_process, lex_step, lex_text,
    lex_template_spec, splat_message, LexState, LexStep, PartView, TokenKind, TokenView,
};
use crate::text::{
    all_whitespace, first_index, is_ascii_whitespace, is_whitespace, lemma_first_index, lemma_first_index_is, stops, trim_start, Stop,
};
use crate::tokens::{Span, TreeView};
use crate::env::{env_clear, env_remove, env_set, EnvView};
use crate::cmd::strip_line_end;
use crate::expand::{
    builder_block, call_trees, default_plumbing, errors_trees, expand_arg_spec, expand_args_spec,
    expand_cmd_spec, macro_output, part_tree, KrateView,
};
use vstd::utf8::{decode_utf8, encode_utf8, valid_utf8};
use crate::eval::{
    block_parts, call_arg, call_prefix, concat_texts, eval_all, eval_arg_code, eval_args_code,
    eval_cmd_code, eval_part, eval_parts, eval_text, flatten, lemma_eval_concat, lemma_eval_stmts,
    Bindings,
};
use crate::expand::{acc_tree, arg_stmts, let_head, punct};
use crate::tokens::{Delimiter, Spacing};
use crate::stdio::{plan_spec, InputMode, OutputKind, StdioMode, StdioView};
use crate::cmd::{cmd_display, display_arg, is_plain_char, join_display};
use crate::arg::{AsArg, AsArgs};

verus! {

/// A piece of a template.
pub enum Atom {
    /// A bare word.
    Word(Seq<char>),
    /// Text written between single quotes.
    Quoted(Seq<char>),
    /// `{name}`: the value of a variable.
    Interp(Seq<char>),
    /// `{name..}`: the values of a variable, spliced in.
    Splice(Seq<char>),
}

/// How the piece is written.
pub open spec fn atom_text(a: Atom) -> Seq<char> {
    match a {
        Atom::Word(w) => w,
        Atom::Quoted(q) => seq!['\''] + q + seq!['\''],
        Atom::Interp(n) => seq!['{'] + n + seq!['}'],
        Atom::Splice(n) => seq!['{'] + n + seq!['.', '.', '}'],
    }
}

pub open spec fn ends_with_dots(n: Seq<char>) -> bool {
    n.len() >= 2 && n[n.len() - 2] == '.' && n[n.len() - 1] == '.'
}

/// A piece that reads back as itself: a word of characters that are neither
/// whitespace nor quotes nor braces; quoted text without a quote; a non-empty
/// name that can be an identifier (see `name_ok`).
pub open spec fn atom_ok(a: Atom) -> bool {
    match a {
        Atom::Word(w) => w.len() > 0 && forall|i: int|
            0 <= i < w.len() ==> !is_whitespace(#[trigger] w[i]) && !stops(Stop::WordEnd, w[i]),
        Atom::Quoted(q) => forall|i: int| 0 <= i < q.len() ==> #[trigger] q[i] != '\'',
        Atom::Interp(n) => n.len() > 0 && !ends_with_dots(n) && name_ok(n) && forall|i: int|
            0 <= i < n.len() ==> #[trigger] n[i] != '}',
        Atom::Splice(n) => n.len() > 0 && name_ok(n) && forall|i: int| 0 <= i < n.len() ==> #[trigger] n[i] != '}',
    }
}

/// The token the lexer reads for the piece.
pub open spec fn atom_token(a: Atom, joined: bool, span: Span) -> TokenView {
    match a {
        Atom::Word(w) => TokenView { joined_to_prev: joined, kind: TokenKind::Word, text: w, span },
        Atom::Quoted(q) => TokenView { joined_to_prev: joined, kind: TokenKind::Quoted, text: q, span },
        Atom::Interp(n) => TokenView {
            joined_to_prev: joined,
            kind: TokenKind::Interpolation { splat: false, inline: true },
            text: n,
            span,
        },
        Atom::Splice(n) => TokenView {
            joined_to_prev: joined,
            kind: TokenKind::Interpolation { splat: true, inline: true },
            text: n,
            span,
        },
    }
}

/// The part a piece makes on its own: one argument (a string literal, or the
/// borrowed variable), or a splice of the variable's values.
pub open spec fn atom_part(a: Atom, span: Span) -> PartView {
    match a {
        Atom::Word(w) => PartView::Arg(TreeView::StrLiteral(w, Span::CallSite)),
        Atom::Quoted(q) => PartView::Arg(TreeView::StrLiteral(q, Span::CallSite)),
        Atom::Interp(n) => PartView::Arg(
            arg_tree(atom_token(a, false, span), Span::MixedSite),
        ),
        Atom::Splice(n) => PartView::Splat(TreeView::Ident(n, span)),
    }
}

proof fn lemma_trim_start_none(s: Seq<char>)
    requires
        s.len() > 0,
        !is_whitespace(s[0]),
    ensures
        trim_start(s) == s,
{
    lemma_first_index_is(s, Stop::NonWhitespace, 0);
    assert(s.skip(0) =~= s);
}

/// The first character of a piece.
proof fn lemma_atom_start(a: Atom)
    requires
        atom_ok(a),
    ensures
        atom_text(a).len() > 0,
        !is_whitespace(atom_text(a)[0]),
        a is Word ==> atom_text(a)[0] != '{' && atom_text(a)[0] != '\'',
        a is Quoted ==> atom_text(a)[0] == '\'',
        (a is Interp || a is Splice) ==> atom_text(a)[0] == '{',
{
    match a {
        Atom::Word(w) => {
            assert(!stops(Stop::WordEnd, w[0]));
        },
        _ => {},
    }
}

/// The lexer reads a piece followed by nothing or by whitespace as its token.
proof fn lemma_step_atom_text(a: Atom, r: Seq<char>, t: Seq<char>, joined: bool, span: Span)
    requires
        atom_ok(a),
        a is Word ==> r.len() == 0 || stops(Stop::WordEnd, r[0]),
        t == atom_text(a) + r,
    ensures
        lex_step_after_trim(t, joined, span) == LexStep::Emit(atom_token(a, joined, span), r),
{
    lemma_atom_start(a);
    let text = atom_text(a);
    assert(t[0] == text[0]);
    match a {
        Atom::Word(w) => {
            assert forall|j: int| 0 <= j < w.len() implies !stops(Stop::WordEnd, #[trigger] t[j]) by {
                assert(t[j] == w[j]);
            }
            if r.len() > 0 {
                assert(t[w.len() as int] == r[0]);
            }
            lemma_first_index_is(t, Stop::WordEnd, w.len() as int);
            assert(t.take(w.len() as int) =~= w);
            assert(t.skip(w.len() as int) =~= r);
        },
        Atom::Quoted(q) => {
            let body = t.skip(1);
            assert(body =~= q + seq!['\''] + r);
            assert forall|j: int| 0 <= j < q.len() implies !stops(Stop::At('\''), #[trigger] body[j]) by {
                assert(body[j] == q[j]);
            }
            assert(body[q.len() as int] == '\'');
            lemma_first_index_is(body, Stop::At('\''), q.len() as int);
            assert(body.take(q.len() as int) =~= q);
            assert(body.skip(q.len() as int + 1) =~= r);
        },
        Atom::Interp(n) => {
            let body = t.skip(1);
            assert(body =~= n + seq!['}'] + r);
            assert forall|j: int| 0 <= j < n.len() implies !stops(Stop::At('}'), #[trigger] body[j]) by {
                assert(body[j] == n[j]);
            }
            assert(body[n.len() as int] == '}');
            lemma_first_index_is(body, Stop::At('}'), n.len() as int);
            assert(body.take(n.len() as int) =~= n);
            assert(body.skip(n.len() as int + 1) =~= r);
        },
        Atom::Splice(n) => {
            let body = t.skip(1);
            let part = n + seq!['.', '.'];
            assert(body =~= part + seq!['}'] + r);
            assert forall|j: int| 0 <= j < part.len() implies !stops(Stop::At('}'), #[trigger] body[j]) by {
                assert(body[j] == part[j]);
                if j < n.len() {
                    assert(part[j] == n[j]);
                }
            }
            assert(body[part.len() as int] == '}');
            lemma_first_index_is(body, Stop::At('}'), part.len() as int);
            assert(body.take(part.len() as int) =~= part);
            assert(part.take(part.len() - 2) =~= n);
            assert(body.skip(part.len() as int + 1) =~= r);
        },
    }
}

/// `lex_step` once the whitespace is trimmed to `t`.
pub open spec fn lex_step_after_trim(t: Seq<char>, joined: bool, span: Span) -> LexStep {
    if t.len() == 0 {
        LexStep::End
    } else if t[0] == '{' {
        crate::template::delimited_step(t, '}', joined, span, "unclosed `{` in command"@)
    } else if t[0] == '\'' {
        crate::template::delimited_step(t, '\'', joined, span, "unclosed `'` in command"@)
    } else {
        let k = first_index(t, Stop::WordEnd) as int;
        LexStep::Emit(
            TokenView { joined_to_prev: joined, kind: TokenKind::Word, text: t.take(k), span },
            t.skip(k),
        )
    }
}

/// The tokens of a single piece.
proof fn lemma_lex_single(b: Atom, span: Span)
    requires
        atom_ok(b),
    ensures
        lex_text(atom_text(b), span) == (seq![atom_token(b, true, span)], Option::<Seq<char>>::None),
{
    let t = atom_text(b);
    lemma_atom_start(b);
    lemma_trim_start_none(t);
    assert(t =~= t + Seq::<char>::empty());
    lemma_step_atom_text(b, Seq::empty(), t, true, span);
    lemma_lex_step_shrinks(t, span);
    let e = Seq::<char>::empty();
    lemma_first_index(e, Stop::NonWhitespace);
    assert(lex_text(e, span).0 =~= Seq::<TokenView>::empty());
    assert(seq![atom_token(b, true, span)] + Seq::<TokenView>::empty() =~= seq![atom_token(b, true, span)]);
}

/// The tokens of two pieces written together.
proof fn lemma_lex_pair(a: Atom, b: Atom, span: Span)
    requires
        atom_ok(a),
        atom_ok(b),
        !(a is Word && b is Word),
    ensures
        lex_text(atom_text(a) + atom_text(b), span) == (
            seq![atom_token(a, true, span), atom_token(b, true, span)],
            Option::<Seq<char>>::None,
        ),
{
    let r = atom_text(b);
    let s = atom_text(a) + r;
    lemma_atom_start(a);
    lemma_atom_start(b);
    assert(s[0] == atom_text(a)[0]);
    lemma_trim_start_none(s);
    if a is Word {
        assert(stops(Stop::WordEnd, r[0]));
    }
    lemma_step_atom_text(a, r, s, true, span);
    lemma_lex_step_shrinks(s, span);
    lemma_lex_single(b, span);
}

/// A splice may not be glued to what follows it: that is reported at the
/// splice, and the glued piece (a word, quoted text or `{name}`) is left out.
pub proof fn law_glued_splice(n: Seq<char>, b: Atom, span: Span)
    requires
        atom_ok(Atom::Splice(n)),
        atom_ok(b),
        !(b is Splice),
    ensures
        lex_template_spec(atom_text(Atom::Splice(n)) + atom_text(b), span, Span::MixedSite).parts
            == seq![PartView::Splat(TreeView::Ident(n, span))],
        lex_template_spec(atom_text(Atom::Splice(n)) + atom_text(b), span, Span::MixedSite).errors
            == seq![(splat_message(n), span)],
{
    let a = Atom::Splice(n);
    lemma_lex_pair(a, b, span);
    let toks = seq![atom_token(a, true, span), atom_token(b, true, span)];
    let st1 = lex_process(initial_lex_state(), toks[0], Span::MixedSite);
    let st2 = lex_process(st1, toks[1], Span::MixedSite);
    assert(toks.drop_first() =~= seq![toks[1]]);
    assert(seq![toks[1]].drop_first() =~= Seq::<TokenView>::empty());
    assert(lex_fold(initial_lex_state(), toks, Span::MixedSite) == lex_fold(st1, toks.drop_first(), Span::MixedSite));
    assert(lex_fold(st1, seq![toks[1]], Span::MixedSite) == lex_fold(st2, seq![toks[1]].drop_first(), Span::MixedSite));
    assert(lex_fold(st2, Seq::<TokenView>::empty(), Span::MixedSite) == st2);
    assert(st1.parts =~= seq![PartView::Splat(TreeView::Ident(n, span))]);
    assert(st2.parts =~= st1.parts);
    assert(st2.errors =~= seq![(splat_message(n), span)]);
}


/// Setting a variable again overrides the earlier value.
pub proof fn law_env_last_set_wins(e: EnvView, k: Seq<char>, v: Seq<char>, w: Seq<char>)
    ensures
        env_set(env_set(e, k, v), k, w) == env_set(e, k, w),
{
    assert(env_set(env_set(e, k, v), k, w).vars =~= env_set(e, k, w).vars);
}

/// Removing a variable undoes setting it: after a clear nothing is left of
/// it, otherwise it is marked for removal from the inherited environment.
pub proof fn law_env_remove_after_set(e: EnvView, k: Seq<char>, v: Seq<char>)
    ensures
        e.clear ==> !env_remove(env_set(e, k, v), k).vars.dom().contains(k),
        e.clear ==> env_remove(env_set(e, k, v), k).vars == e.vars.remove(k),
        !e.clear ==> env_remove(env_set(e, k, v), k).vars == e.vars.insert(k, None),
{
    assert(env_set(e, k, v).vars.remove(k) =~= e.vars.remove(k));
    assert(env_set(e, k, v).vars.insert(k, None) =~= e.vars.insert(k, None));
}

/// A clear forgets all earlier changes, and removing a variable right after a
/// clear changes nothing.
pub proof fn law_env_clear_forgets(e: EnvView, k: Seq<char>)
    ensures
        env_remove(env_clear(), k) == env_clear(),
        env_clear().vars.len() == 0,
{
    assert(env_clear().vars.remove(k) =~= env_clear().vars);
}

/// Reading text back: what a process writes as text with a final line ending
/// (`\n` or `\r\n`) is read as the text, when the text itself does not end
/// in a carriage return; text without a line ending is read as it is.
pub proof fn law_read_text_roundtrip(s: Seq<char>)
    requires
        s.len() == 0 || s.last() != '\r',
    ensures
        valid_utf8(encode_utf8(s + seq!['\n'])),
        strip_line_end(decode_utf8(encode_utf8(s + seq!['\n']))) == s,
        strip_line_end(decode_utf8(encode_utf8(s + seq!['\r', '\n']))) == s,
        s.len() == 0 || s.last() != '\n' ==> strip_line_end(decode_utf8(encode_utf8(s))) == s,
{
    vstd::utf8::encode_utf8_valid_utf8(s + seq!['\n']);
    vstd::utf8::encode_utf8_decode_utf8(s + seq!['\n']);
    vstd::utf8::encode_utf8_decode_utf8(s + seq!['\r', '\n']);
    vstd::utf8::encode_utf8_decode_utf8(s);
    assert((s + seq!['\n']).drop_last() =~= s);
    assert((s + seq!['\r', '\n']).drop_last() =~= s + seq!['\r']);
    assert((s + seq!['\r']).drop_last() =~= s);
}


/// The helper path and spans of a call without an explicit path.
pub open spec fn default_krate() -> KrateView {
    KrateView {
        full_span: Span::CallSite,
        private_span: Span::MixedSite,
        plumbing: default_plumbing(),
    }
}

/// A splice may not be glued to what precedes it either: that is reported at
/// the splice, which stays a splice next to the piece before it.
pub proof fn law_splice_glued_after(a: Atom, n: Seq<char>, span: Span)
    requires
        atom_ok(a),
        atom_ok(Atom::Splice(n)),
        !(a is Splice),
    ensures
        lex_template_spec(atom_text(a) + atom_text(Atom::Splice(n)), span, Span::MixedSite).parts
            == seq![
            PartView::Arg(arg_tree(atom_token(a, true, span), Span::MixedSite)),
            PartView::Splat(TreeView::Ident(n, span)),
        ],
        lex_template_spec(atom_text(a) + atom_text(Atom::Splice(n)), span, Span::MixedSite).errors
            == seq![(splat_message(n), span)],
{
    let b = Atom::Splice(n);
    lemma_lex_pair(a, b, span);
    let toks = seq![atom_token(a, true, span), atom_token(b, true, span)];
    let st1 = lex_process(initial_lex_state(), toks[0], Span::MixedSite);
    let st2 = lex_process(st1, toks[1], Span::MixedSite);
    assert(lex_fold(initial_lex_state(), toks, Span::MixedSite) == lex_fold(st1, toks.drop_first(), Span::MixedSite));
    assert(toks.drop_first() =~= seq![toks[1]]);
    assert(lex_fold(st1, seq![toks[1]], Span::MixedSite) == lex_fold(st2, seq![toks[1]].drop_first(), Span::MixedSite));
    assert(seq![toks[1]].drop_first() =~= Seq::<TokenView>::empty());
    assert(lex_fold(st2, Seq::<TokenView>::empty(), Span::MixedSite) == st2);
    assert(st1.parts =~= seq![PartView::Arg(arg_tree(toks[0], Span::MixedSite))]);
    assert(st2.parts =~= seq![
        PartView::Arg(arg_tree(atom_token(a, true, span), Span::MixedSite)),
        PartView::Splat(TreeView::Ident(n, span)),
    ]);
    assert(st2.errors =~= seq![(splat_message(n), span)]);
}


/// The line ending that text ends with: the longest of `\r\n`, `\n`, `\r`
/// and the empty text that is a suffix of it.
pub open spec fn line_ending(s: Seq<char>) -> Seq<char> {
    if s.len() >= 2 && s[s.len() - 2] == '\r' && s[s.len() - 1] == '\n' {
        seq!['\r', '\n']
    } else if s.len() >= 1 && s[s.len() - 1] == '\n' {
        seq!['\n']
    } else if s.len() >= 1 && s[s.len() - 1] == '\r' {
        seq!['\r']
    } else {
        Seq::empty()
    }
}

/// Reading output removes exactly its line ending and nothing else: the text
/// read, followed by the line ending, encodes back to the bytes.
pub proof fn law_read_stream_removes_line_ending(data: Seq<u8>)
    requires
        valid_utf8(data),
    ensures
        strip_line_end(decode_utf8(data)) + line_ending(decode_utf8(data)) == decode_utf8(data),
        encode_utf8(strip_line_end(decode_utf8(data)) + line_ending(decode_utf8(data))) == data,
{
    let d = decode_utf8(data);
    vstd::utf8::decode_utf8_encode_utf8(data);
    if d.len() >= 2 && d[d.len() - 2] == '\r' && d[d.len() - 1] == '\n' {
        assert(d.drop_last().last() == '\r');
        assert(d.drop_last().drop_last() + seq!['\r', '\n'] =~= d);
    } else if d.len() >= 1 && d[d.len() - 1] == '\n' {
        assert(d.drop_last() + seq!['\n'] =~= d);
        if d.len() >= 2 {
            assert(d.drop_last().last() == d[d.len() - 2]);
        }
    } else if d.len() >= 1 && d[d.len() - 1] == '\r' {
        assert(d.drop_last() + seq!['\r'] =~= d);
    } else {
        assert(d + Seq::<char>::empty() =~= d);
    }
}


/// The pieces of a word, written without whitespace between them: each
/// reads back as itself, and two bare words never follow each other (they
/// would be one).
pub open spec fn word_lexes(w: Seq<Atom>) -> bool {
    &&& w.len() > 0
    &&& forall|i: int| 0 <= i < w.len() ==> atom_ok(#[trigger] w[i])
    &&& forall|i: int| 0 <= i < w.len() - 1 ==> !(#[trigger] w[i] is Word && w[i + 1] is Word)
}

/// A word of a template: pieces written together, where a splice stands
/// alone.
pub open spec fn word_ok(w: Seq<Atom>) -> bool {
    &&& word_lexes(w)
    &&& w.len() > 1 ==> forall|i: int| 0 <= i < w.len() ==> !(#[trigger] w[i] is Splice)
}

/// How a word is written.
pub open spec fn word_text(w: Seq<Atom>) -> Seq<char>
    decreases w.len(),
{
    if w.len() == 0 {
        Seq::empty()
    } else {
        atom_text(w[0]) + word_text(w.drop_first())
    }
}

/// The tokens of a word; only the first may be separated from what precedes.
pub open spec fn word_tokens(w: Seq<Atom>, joined: bool, span: Span) -> Seq<TokenView> {
    Seq::new(
        w.len(),
        |i: int|
            atom_token(
                w[i],
                if i == 0 {
                    joined
                } else {
                    true
                },
                span,
            ),
    )
}

/// The expression a (non-splice) piece contributes to an argument.
pub open spec fn piece_tree(a: Atom, span: Span) -> TreeView {
    arg_tree(atom_token(a, true, span), Span::MixedSite)
}

/// The part a word makes: the part of its only piece, or its pieces glued.
pub open spec fn word_part(w: Seq<Atom>, span: Span) -> PartView {
    if w.len() == 1 {
        atom_part(w[0], span)
    } else {
        PartView::Combined(Seq::new(w.len(), |i: int| piece_tree(w[i], span)))
    }
}

pub open spec fn word_parts(ws: Seq<Seq<Atom>>, span: Span) -> Seq<PartView> {
    Seq::new(ws.len(), |i: int| word_part(ws[i], span))
}

/// Whitespace around the words of a template: one run before each word
/// and one after the last. The runs between words are not empty, and a run
/// that follows a bare word starts with ASCII whitespace (other whitespace
/// would continue the word). The first and the last run may be empty.
pub open spec fn gaps_ok(ws: Seq<Seq<Atom>>, gaps: Seq<Seq<char>>) -> bool {
    &&& gaps.len() == ws.len() + 1
    &&& forall|i: int| 0 <= i < gaps.len() ==> all_whitespace(#[trigger] gaps[i])
    &&& forall|i: int| 0 < i < ws.len() ==> (#[trigger] gaps[i]).len() > 0
    &&& forall|i: int|
        0 <= i < ws.len() ==> ((#[trigger] ws[i]).last() is Word && gaps[i + 1].len() > 0
            ==> is_ascii_whitespace(gaps[i + 1][0]))
}

/// The words with the whitespace around them: the first gap, the first
/// word, the next gap, and so on up to the last gap.
pub open spec fn gapped(ws: Seq<Seq<Atom>>, gaps: Seq<Seq<char>>) -> Seq<char>
    decreases ws.len(),
{
    if ws.len() == 0 {
        gaps[0]
    } else {
        gaps[0] + word_text(ws[0]) + gapped(ws.drop_first(), gaps.drop_first())
    }
}

/// The tokens of the words; a word's first token is joined to what precedes
/// it when no whitespace leads it.
pub open spec fn gapped_tokens(ws: Seq<Seq<Atom>>, gaps: Seq<Seq<char>>, span: Span) -> Seq<TokenView>
    decreases ws.len(),
{
    if ws.len() == 0 {
        Seq::empty()
    } else {
        word_tokens(ws[0], gaps[0].len() == 0, span) + gapped_tokens(ws.drop_first(), gaps.drop_first(), span)
    }
}

proof fn lemma_gaps_rest(ws: Seq<Seq<Atom>>, gaps: Seq<Seq<char>>)
    requires
        gaps_ok(ws, gaps),
        ws.len() > 0,
    ensures
        gaps_ok(ws.drop_first(), gaps.drop_first()),
{
    let w2 = ws.drop_first();
    let g2 = gaps.drop_first();
    assert forall|i: int| 0 <= i < g2.len() implies all_whitespace(#[trigger] g2[i]) by {
        assert(g2[i] == gaps[i + 1]);
    }
    assert forall|i: int| 0 < i < w2.len() implies (#[trigger] g2[i]).len() > 0 by {
        assert(g2[i] == gaps[i + 1]);
    }
    assert forall|i: int|
        0 <= i < w2.len() implies ((#[trigger] w2[i]).last() is Word && g2[i + 1].len() > 0
            ==> is_ascii_whitespace(g2[i + 1][0])) by {
        assert(w2[i] == ws[i + 1]);
        assert(g2[i + 1] == gaps[i + 2]);
    }
}

/// Leading whitespace is what `trim_start` removes.
proof fn lemma_trim_gap(g: Seq<char>, u: Seq<char>)
    requires
        all_whitespace(g),
        u.len() > 0,
        !is_whitespace(u[0]),
    ensures
        trim_start(g + u) == u,
{
    let s = g + u;
    assert forall|j: int| 0 <= j < g.len() implies !stops(Stop::NonWhitespace, #[trigger] s[j]) by {
        assert(s[j] == g[j]);
    }
    assert(s[g.len() as int] == u[0]);
    lemma_first_index_is(s, Stop::NonWhitespace, g.len() as int);
    assert(s.skip(g.len() as int) =~= u);
}

/// Whitespace alone has no tokens.
proof fn lemma_lex_blank(g: Seq<char>, span: Span)
    requires
        all_whitespace(g),
    ensures
        lex_text(g, span) == (Seq::<TokenView>::empty(), Option::<Seq<char>>::None),
{
    assert forall|j: int| 0 <= j < g.len() implies !stops(Stop::NonWhitespace, #[trigger] g[j]) by {}
    lemma_first_index_is(g, Stop::NonWhitespace, g.len() as int);
    assert(trim_start(g).len() == 0);
}

proof fn lemma_word_rest_ok(w: Seq<Atom>)
    requires
        word_lexes(w),
        w.len() > 1,
    ensures
        word_lexes(w.drop_first()),
        word_ok(w) ==> word_ok(w.drop_first()),
        w.drop_first().last() == w.last(),
{
    let r = w.drop_first();
    assert forall|i: int| 0 <= i < r.len() implies atom_ok(#[trigger] r[i]) by {
        assert(r[i] == w[i + 1]);
    }
    assert forall|i: int| 0 <= i < r.len() - 1 implies !(#[trigger] r[i] is Word && r[i + 1] is Word) by {
        assert(r[i] == w[i + 1]);
        assert(r[i + 1] == w[i + 2]);
    }
    if word_ok(w) {
        assert forall|i: int| 0 <= i < r.len() implies !(#[trigger] r[i] is Splice) by {
            assert(r[i] == w[i + 1]);
        }
    }
}

/// A word starts with its first piece's first character.
proof fn lemma_word_start(w: Seq<Atom>)
    requires
        word_lexes(w),
    ensures
        word_text(w).len() > 0,
        word_text(w)[0] == atom_text(w[0])[0],
        !is_whitespace(word_text(w)[0]),
{
    assert(atom_ok(w[0]));
    lemma_atom_start(w[0]);
}

/// The tokens of a word led by the whitespace `g` and followed by `r`,
/// which ends a bare word.
proof fn lemma_lex_word(w: Seq<Atom>, g: Seq<char>, r: Seq<char>, span: Span)
    requires
        word_lexes(w),
        all_whitespace(g),
        w.last() is Word ==> r.len() == 0 || is_ascii_whitespace(r[0]),
    ensures
        lex_text(g + word_text(w) + r, span) == (
            word_tokens(w, g.len() == 0, span) + lex_text(r, span).0,
            lex_text(r, span).1,
        ),
    decreases w.len(),
{
    let a = w[0];
    let rest = w.drop_first();
    let r2 = word_text(rest) + r;
    let t = atom_text(a) + r2;
    assert(atom_ok(a));
    lemma_atom_start(a);
    assert(word_text(w) == atom_text(a) + word_text(rest));
    assert(word_text(w) + r =~= t);
    if a is Word {
        if rest.len() > 0 {
            assert(!(w[0] is Word && w[1] is Word));
            assert(rest[0] == w[1]);
            assert(atom_ok(w[1]));
            lemma_word_rest_ok(w);
            lemma_word_start(rest);
            lemma_atom_start(w[1]);
            assert(r2[0] == atom_text(rest[0])[0]);
            assert(stops(Stop::WordEnd, r2[0]));
        } else {
            assert(r2 =~= r);
            assert(w.last() == a);
        }
    }
    let joined = g.len() == 0;
    lemma_step_atom_text(a, r2, t, joined, span);
    let s = g + word_text(w) + r;
    assert(s =~= g + t);
    assert(t[0] == atom_text(a)[0]);
    lemma_trim_gap(g, t);
    lemma_lex_step_shrinks(s, span);
    assert(lex_step(s, span) == LexStep::Emit(atom_token(a, joined, span), r2));
    let tok = atom_token(a, joined, span);
    if rest.len() == 0 {
        assert(r2 =~= r);
        assert(word_tokens(w, joined, span) =~= seq![tok]);
    } else {
        lemma_word_rest_ok(w);
        lemma_lex_word(rest, Seq::empty(), r, span);
        assert(Seq::<char>::empty() + word_text(rest) + r =~= r2);
        assert(word_tokens(w, joined, span) =~= seq![tok] + word_tokens(rest, true, span));
    }
}

/// The tokens of words with whitespace around them.
proof fn lemma_lex_gapped(ws: Seq<Seq<Atom>>, gaps: Seq<Seq<char>>, span: Span)
    requires
        forall|i: int| 0 <= i < ws.len() ==> word_lexes(#[trigger] ws[i]),
        gaps_ok(ws, gaps),
    ensures
        lex_text(gapped(ws, gaps), span) == (gapped_tokens(ws, gaps, span), Option::<Seq<char>>::None),
    decreases ws.len(),
{
    assert(all_whitespace(gaps[0]));
    if ws.len() == 0 {
        lemma_lex_blank(gaps[0], span);
    } else {
        let rest = ws.drop_first();
        let g2 = gaps.drop_first();
        lemma_gaps_rest(ws, gaps);
        assert forall|i: int| 0 <= i < rest.len() implies word_lexes(#[trigger] rest[i]) by {
            assert(rest[i] == ws[i + 1]);
        }
        lemma_lex_gapped(rest, g2, span);
        let r = gapped(rest, g2);
        assert(word_lexes(ws[0]));
        assert(g2[0] == gaps[1]);
        if rest.len() > 0 {
            assert(gaps[1].len() > 0);
            assert(r == g2[0] + word_text(rest[0]) + gapped(rest.drop_first(), g2.drop_first()));
            assert(r[0] == g2[0][0]);
        } else {
            assert(r == g2[0]);
        }
        if ws[0].last() is Word && gaps[1].len() > 0 {
            assert(is_ascii_whitespace(gaps[1][0]));
        }
        lemma_lex_word(ws[0], gaps[0], r, span);
    }
}

/// The state after a word.
pub open spec fn after_word(st: LexState, w: Seq<Atom>, joined: bool, span: Span) -> LexState {
    LexState {
        parts: st.parts.push(word_part(w, span)),
        prev_splat: if w[0] is Splice {
            Option::Some(atom_token(w[0], joined, span))
        } else {
            Option::None
        },
        errors: st.errors,
    }
}

proof fn lemma_fold_step(st: LexState, t: TokenView, more: Seq<TokenView>)
    ensures
        lex_fold(st, seq![t] + more, Span::MixedSite) == lex_fold(
            lex_process(st, t, Span::MixedSite),
            more,
            Span::MixedSite,
        ),
{
    assert((seq![t] + more)[0] == t);
    assert((seq![t] + more).drop_first() =~= more);
}

/// The glued pieces after the first extend the word's argument.
proof fn lemma_fold_word_rest(st: LexState, w: Seq<Atom>, j: int, more: Seq<TokenView>, span: Span)
    requires
        word_ok(w),
        w.len() > 1,
        1 <= j <= w.len(),
        st.parts.len() > 0,
        st.parts.last() == word_part(w.take(j), span),
        st.prev_splat is None,
    ensures
        lex_fold(st, word_tokens(w, false, span).skip(j) + more, Span::MixedSite) == lex_fold(
            LexState {
                parts: st.parts.update(st.parts.len() - 1, word_part(w, span)),
                prev_splat: Option::None,
                errors: st.errors,
            },
            more,
            Span::MixedSite,
        ),
    decreases w.len() - j,
{
    let toks = word_tokens(w, false, span);
    if j == w.len() {
        assert(w.take(j) =~= w);
        assert(toks.skip(j) + more =~= more);
        assert(st.parts.update(st.parts.len() - 1, word_part(w, span)) =~= st.parts);
        assert(st == LexState {
            parts: st.parts.update(st.parts.len() - 1, word_part(w, span)),
            prev_splat: Option::None,
            errors: st.errors,
        });
    } else {
        let a = w[j];
        assert(atom_ok(a));
        assert(!(a is Splice));
        let t = atom_token(a, true, span);
        assert(toks[j] == t);
        assert(toks.skip(j) + more =~= seq![t] + (toks.skip(j + 1) + more));
        lemma_fold_step(st, t, toks.skip(j + 1) + more);
        let st1 = lex_process(st, t, Span::MixedSite);
        let y = piece_tree(a, span);
        assert(extend_part(word_part(w.take(j), span), y) == word_part(w.take(j + 1), span)) by {
            if j == 1 {
                assert(atom_ok(w[0]));
                assert(!(w[0] is Splice));
                assert(word_part(w.take(1), span) == atom_part(w[0], span));
                assert(atom_part(w[0], span) == PartView::Arg(piece_tree(w[0], span)));
                assert(Seq::new(2, |i: int| piece_tree(w.take(2)[i], span)) =~= seq![
                    piece_tree(w[0], span),
                    y,
                ]);
            } else {
                assert(Seq::new((j + 1) as nat, |i: int| piece_tree(w.take(j + 1)[i], span)) =~= Seq::new(
                    j as nat,
                    |i: int| piece_tree(w.take(j)[i], span),
                ).push(y));
            }
        }
        assert(st1.parts =~= st.parts.update(st.parts.len() - 1, word_part(w.take(j + 1), span)));
        assert(st1.errors == st.errors);
        lemma_fold_word_rest(st1, w, j + 1, more, span);
        assert(st1.parts.update(st1.parts.len() - 1, word_part(w, span)) =~= st.parts.update(
            st.parts.len() - 1,
            word_part(w, span),
        ));
    }
}

/// The tokens of a word add the word's part.
proof fn lemma_fold_word(st: LexState, w: Seq<Atom>, joined: bool, more: Seq<TokenView>, span: Span)
    requires
        word_ok(w),
        joined ==> st.parts.len() == 0 && st.prev_splat is None,
    ensures
        lex_fold(st, word_tokens(w, joined, span) + more, Span::MixedSite) == lex_fold(
            after_word(st, w, joined, span),
            more,
            Span::MixedSite,
        ),
{
    let toks = word_tokens(w, joined, span);
    let a = w[0];
    assert(atom_ok(a));
    let t = atom_token(a, joined, span);
    assert(toks[0] == t);
    assert(toks + more =~= seq![t] + (toks.skip(1) + more));
    lemma_fold_step(st, t, toks.skip(1) + more);
    let st1 = lex_process(st, t, Span::MixedSite);
    assert(st1.errors == st.errors);
    if a is Splice {
        assert(w.len() == 1);
        assert(toks.skip(1) + more =~= more);
        assert(st1.parts =~= st.parts.push(word_part(w, span)));
    } else {
        assert(st1.parts =~= st.parts.push(PartView::Arg(piece_tree(a, span))));
        if w.len() == 1 {
            assert(toks.skip(1) + more =~= more);
            assert(st1.parts =~= st.parts.push(word_part(w, span)));
        } else {
            let wt = word_tokens(w, false, span);
            assert(toks.skip(1) =~= wt.skip(1));
            assert(w.take(1) =~= seq![a]);
            assert(word_part(w.take(1), span) == atom_part(a, span));
            lemma_fold_word_rest(st1, w, 1, more, span);
            assert(st1.parts.update(st1.parts.len() - 1, word_part(w, span)) =~= st.parts.push(
                word_part(w, span),
            ));
        }
    }
}

/// Words led by whitespace add one part each.
proof fn lemma_fold_gapped(st: LexState, ws: Seq<Seq<Atom>>, gaps: Seq<Seq<char>>, span: Span)
    requires
        forall|i: int| 0 <= i < ws.len() ==> word_ok(#[trigger] ws[i]),
        gaps_ok(ws, gaps),
        ws.len() > 0 && gaps[0].len() == 0 ==> st.parts.len() == 0 && st.prev_splat is None,
    ensures
        lex_fold(st, gapped_tokens(ws, gaps, span), Span::MixedSite).parts == st.parts + word_parts(
            ws,
            span,
        ),
        lex_fold(st, gapped_tokens(ws, gaps, span), Span::MixedSite).errors == st.errors,
    decreases ws.len(),
{
    if ws.len() == 0 {
        assert(st.parts + word_parts(ws, span) =~= st.parts);
    } else {
        let rest = ws.drop_first();
        let g2 = gaps.drop_first();
        lemma_gaps_rest(ws, gaps);
        assert forall|i: int| 0 <= i < rest.len() implies word_ok(#[trigger] rest[i]) by {
            assert(rest[i] == ws[i + 1]);
        }
        assert(word_ok(ws[0]));
        let joined = gaps[0].len() == 0;
        lemma_fold_word(st, ws[0], joined, gapped_tokens(rest, g2, span), span);
        let st1 = after_word(st, ws[0], joined, span);
        assert(g2[0] == gaps[1]);
        if rest.len() > 0 {
            assert(gaps[1].len() > 0);
        }
        lemma_fold_gapped(st1, rest, g2, span);
        assert(word_parts(ws, span) =~= seq![word_part(ws[0], span)] + word_parts(rest, span));
        assert(st.parts + word_parts(ws, span) =~= st1.parts + word_parts(rest, span));
    }
}

/// A template of words (see `word_ok`) with whitespace around them (see
/// `gaps_ok`: runs of spaces, tabs, line breaks and other whitespace between
/// the words, and optional runs before the first and after the last) yields
/// one part per word, in order: a piece alone is its own part, several
/// pieces are glued into one argument. Nothing is reported.
pub proof fn law_words(ws: Seq<Seq<Atom>>, gaps: Seq<Seq<char>>, span: Span)
    requires
        ws.len() >= 1,
        forall|i: int| 0 <= i < ws.len() ==> word_ok(#[trigger] ws[i]),
        gaps_ok(ws, gaps),
    ensures
        lex_template_spec(gapped(ws, gaps), span, Span::MixedSite).parts == word_parts(ws, span),
        lex_template_spec(gapped(ws, gaps), span, Span::MixedSite).errors.len() == 0,
{
    assert forall|i: int| 0 <= i < ws.len() implies word_lexes(#[trigger] ws[i]) by {
        assert(word_ok(ws[i]));
    }
    lemma_lex_gapped(ws, gaps, span);
    lemma_fold_gapped(initial_lex_state(), ws, gaps, span);
    assert(Seq::<PartView>::empty() + word_parts(ws, span) =~= word_parts(ws, span));
}


/// The tokens of the words before a word, the word's tokens, and the tokens
/// of the words after it.
proof fn lemma_split_tokens(ws: Seq<Seq<Atom>>, gaps: Seq<Seq<char>>, i: int, span: Span) -> (pq: (
    Seq<TokenView>,
    Seq<TokenView>,
))
    requires
        gaps.len() == ws.len() + 1,
        0 <= i < ws.len(),
    ensures
        gapped_tokens(ws, gaps, span) == pq.0 + word_tokens(ws[i], gaps[i].len() == 0, span) + pq.1,
    decreases i,
{
    let rest = ws.drop_first();
    let g2 = gaps.drop_first();
    let w0 = word_tokens(ws[0], gaps[0].len() == 0, span);
    if i == 0 {
        (Seq::empty(), gapped_tokens(rest, g2, span))
    } else {
        let pq = lemma_split_tokens(rest, g2, i - 1, span);
        assert(rest[i - 1] == ws[i]);
        assert(g2[i - 1] == gaps[i]);
        (w0 + pq.0, pq.1)
    }
}

/// Folding tokens in two runs is folding them in one.
proof fn lemma_fold_concat(st: LexState, x: Seq<TokenView>, y: Seq<TokenView>)
    ensures
        lex_fold(st, x + y, Span::MixedSite) == lex_fold(lex_fold(st, x, Span::MixedSite), y, Span::MixedSite),
    decreases x.len(),
{
    if x.len() == 0 {
        assert(x + y =~= y);
    } else {
        assert((x + y)[0] == x[0]);
        assert((x + y).drop_first() =~= x.drop_first() + y);
        lemma_fold_concat(lex_process(st, x[0], Span::MixedSite), x.drop_first(), y);
    }
}

/// Diagnostics once reported stay reported.
proof fn lemma_fold_keeps_errors(st: LexState, y: Seq<TokenView>)
    ensures
        lex_fold(st, y, Span::MixedSite).errors.len() >= st.errors.len(),
        forall|k: int|
            0 <= k < st.errors.len() ==> lex_fold(st, y, Span::MixedSite).errors[k] == #[trigger] st.errors[k],
    decreases y.len(),
{
    if y.len() > 0 {
        let s1 = lex_process(st, y[0], Span::MixedSite);
        assert(s1.errors.len() >= st.errors.len());
        assert(forall|k: int| 0 <= k < st.errors.len() ==> s1.errors[k] == #[trigger] st.errors[k]);
        lemma_fold_keeps_errors(s1, y.drop_first());
    }
}

/// A splice glued to a neighbouring piece is reported wherever it stands:
/// when a word of several pieces holds a splice, the diagnostic for its
/// first splice, at the template, is among those of the template. (With two
/// splices glued together the first is the one reported.)
pub proof fn law_glued_splice_reported(
    ws: Seq<Seq<Atom>>,
    gaps: Seq<Seq<char>>,
    i: int,
    j: int,
    n: Seq<char>,
    span: Span,
)
    requires
        forall|k: int| 0 <= k < ws.len() ==> word_lexes(#[trigger] ws[k]),
        gaps_ok(ws, gaps),
        0 <= i < ws.len(),
        ws[i].len() > 1,
        0 <= j < ws[i].len(),
        ws[i][j] == Atom::Splice(n),
        forall|k: int| 0 <= k < j ==> !(#[trigger] ws[i][k] is Splice),
    ensures
        lex_template_spec(gapped(ws, gaps), span, Span::MixedSite).errors.contains((splat_message(n), span)),
{
    lemma_lex_gapped(ws, gaps, span);
    let pq = lemma_split_tokens(ws, gaps, i, span);
    let w = ws[i];
    assert(word_lexes(w));
    let wt = word_tokens(w, gaps[i].len() == 0, span);
    let a: int = if j == 0 { 0 } else { j - 1 };
    let t1 = wt[a];
    let t2 = wt[a + 1];
    assert(wt =~= wt.take(a) + seq![t1, t2] + wt.skip(a + 2));
    let pre = pq.0 + wt.take(a);
    let post = wt.skip(a + 2) + pq.1;
    let toks = gapped_tokens(ws, gaps, span);
    assert(toks =~= pre + (seq![t1, t2] + post));
    lemma_fold_concat(initial_lex_state(), pre, seq![t1, t2] + post);
    let s0 = lex_fold(initial_lex_state(), pre, Span::MixedSite);
    let s1 = lex_process(s0, t1, Span::MixedSite);
    let s2 = lex_process(s1, t2, Span::MixedSite);
    lemma_fold_concat(s0, seq![t1, t2], post);
    let e = Seq::<TokenView>::empty();
    assert(seq![t1, t2] =~= seq![t1] + seq![t2]);
    assert(seq![t2] =~= seq![t2] + e);
    lemma_fold_step(s0, t1, seq![t2]);
    lemma_fold_step(s1, t2, e);
    assert(lex_fold(s0, seq![t1, t2], Span::MixedSite) == s2);
    lemma_fold_keeps_errors(s2, post);
    assert(atom_ok(w[a]));
    assert(atom_ok(w[a + 1]));
    assert(t2 == atom_token(w[a + 1], true, span));
    if j == 0 {
        assert(t1 == atom_token(w[0], gaps[i].len() == 0, span));
        assert(s1.prev_splat == Option::Some(t1));
        assert(s2.errors.last() == (splat_message(n), span));
    } else {
        assert(!(w[a] is Splice));
        assert(t1 == atom_token(w[a], if a == 0 { gaps[i].len() == 0 } else { true }, span));
        assert(s1.prev_splat is None);
        assert(s1.parts.len() > 0);
        assert(s2.errors.last() == (splat_message(n), span));
    }
    let fin = lex_template_spec(gapped(ws, gaps), span, Span::MixedSite).errors;
    assert(fin[s2.errors.len() - 1] == (splat_message(n), span));
}

/// The text a (non-splice) piece stands for.
pub open spec fn piece_value(a: Atom, b: Bindings) -> Seq<char> {
    match a {
        Atom::Word(w) => w,
        Atom::Quoted(q) => q,
        Atom::Interp(n) => (b.text)(n),
        Atom::Splice(_) => Seq::empty(),
    }
}

/// The text a word stands for: its pieces glued in order.
pub open spec fn word_value(w: Seq<Atom>, b: Bindings) -> Seq<char> {
    concat_texts(Seq::new(w.len(), |i: int| piece_value(w[i], b)))
}

/// The arguments a word stands for: the values of a lone splice, or the
/// word's text as one argument.
pub open spec fn word_args(w: Seq<Atom>, b: Bindings) -> Seq<Seq<char>> {
    match w[0] {
        Atom::Splice(n) => (b.list)(n),
        _ => seq![word_value(w, b)],
    }
}

/// The arguments the words stand for, in order.
pub open spec fn words_args(ws: Seq<Seq<Atom>>, b: Bindings) -> Seq<Seq<char>> {
    flatten(Seq::new(ws.len(), |i: int| word_args(ws[i], b)))
}

proof fn lemma_eval_piece(k: KrateView, b: Bindings, a: Atom, span: Span)
    requires
        atom_ok(a),
        !(a is Splice),
    ensures
        eval_text(k, b, piece_tree(a, span)) == Option::Some(piece_value(a, b)),
{
    match a {
        Atom::Interp(n) => {
            let s = seq![punct('&', Spacing::Alone), TreeView::Ident(n, span)];
            assert(piece_tree(a, span) == TreeView::Group(Delimiter::Parenthesis, s, Span::CallSite));
        },
        _ => {},
    }
}

proof fn lemma_eval_pieces(k: KrateView, b: Bindings, w: Seq<Atom>, span: Span)
    requires
        forall|i: int| 0 <= i < w.len() ==> atom_ok(#[trigger] w[i]) && !(w[i] is Splice),
    ensures
        eval_all(k, b, Seq::new(w.len(), |i: int| piece_tree(w[i], span))) == Option::Some(
            Seq::new(w.len(), |i: int| piece_value(w[i], b)),
        ),
    decreases w.len(),
{
    if w.len() > 0 {
        let p = w.drop_last();
        lemma_eval_pieces(k, b, p, span);
        let ts = Seq::new(w.len(), |i: int| piece_tree(w[i], span));
        assert(ts.drop_last() =~= Seq::new(p.len(), |i: int| piece_tree(p[i], span)));
        assert(atom_ok(w[w.len() - 1]));
        lemma_eval_piece(k, b, w[w.len() - 1], span);
        assert(Seq::new(p.len(), |i: int| piece_value(p[i], b)).push(piece_value(w.last(), b))
            =~= Seq::new(w.len(), |i: int| piece_value(w[i], b)));
    }
}

/// A word's part evaluates to the word's arguments.
proof fn lemma_eval_word_part(k: KrateView, b: Bindings, w: Seq<Atom>, span: Span)
    requires
        word_ok(w),
    ensures
        eval_part(k, b, word_part(w, span)) == Option::Some(word_args(w, b)),
        !(w[0] is Splice) ==> eval_text(k, b, part_tree(k, word_part(w, span))) == Option::Some(
            word_value(w, b),
        ),
{
    assert(atom_ok(w[0]));
    if w[0] is Splice {
    } else {
        let vals = Seq::new(w.len(), |i: int| piece_value(w[i], b));
        if w.len() == 1 {
            lemma_eval_piece(k, b, w[0], span);
            assert(vals.drop_last() =~= Seq::<Seq<char>>::empty());
            assert(concat_texts(vals.drop_last()) == Seq::<char>::empty());
            assert(vals.last() == piece_value(w[0], b));
            assert(concat_texts(vals) =~= Seq::<char>::empty() + piece_value(w[0], b));
            assert(Seq::<char>::empty() + piece_value(w[0], b) =~= piece_value(w[0], b));
        } else {
            assert forall|i: int| 0 <= i < w.len() implies atom_ok(#[trigger] w[i]) && !(w[i] is Splice) by {}
            lemma_eval_pieces(k, b, w, span);
            lemma_eval_concat(k, b, Seq::new(w.len(), |i: int| piece_tree(w[i], span)));
        }
    }
}

proof fn lemma_eval_word_parts(k: KrateView, b: Bindings, ws: Seq<Seq<Atom>>, span: Span)
    requires
        forall|i: int| 0 <= i < ws.len() ==> word_ok(#[trigger] ws[i]),
    ensures
        eval_parts(k, b, word_parts(ws, span)) == Option::Some(
            Seq::new(ws.len(), |i: int| word_args(ws[i], b)),
        ),
    decreases ws.len(),
{
    if ws.len() > 0 {
        let p = ws.drop_last();
        assert forall|i: int| 0 <= i < p.len() implies word_ok(#[trigger] p[i]) by {
            assert(p[i] == ws[i]);
        }
        lemma_eval_word_parts(k, b, p, span);
        assert(word_parts(ws, span).drop_last() =~= word_parts(p, span));
        assert(word_ok(ws[ws.len() - 1]));
        lemma_eval_word_part(k, b, ws.last(), span);
        assert(Seq::new(p.len(), |i: int| word_args(p[i], b)).push(word_args(ws.last(), b)) =~= Seq::new(
            ws.len(),
            |i: int| word_args(ws[i], b),
        ));
    }
}

/// `cmd!` on a template of words with whitespace around them (see
/// `law_words`) whose first word is not a splice: the code it expands to
/// evaluates to the command whose program is the first word's text and whose
/// arguments are those of the other words, in order; nothing is reported,
/// and the code is a single call or a single block.
pub proof fn law_cmd_of_words(ws: Seq<Seq<Atom>>, gaps: Seq<Seq<char>>, span: Span, b: Bindings)
    requires
        ws.len() >= 1,
        forall|i: int| 0 <= i < ws.len() ==> word_ok(#[trigger] ws[i]),
        gaps_ok(ws, gaps),
        !(ws[0][0] is Splice),
    ensures
        ({
            let k = default_krate();
            let out = macro_output(
                expand_cmd_spec(seq![TreeView::Literal(seq!['"'] + gapped(ws, gaps) + seq!['"'], span)]),
            );
            let head = call_trees(k, "new_cmd"@, seq![part_tree(k, word_part(ws[0], span))]);
            &&& out == if ws.len() == 1 {
                head
            } else {
                seq![builder_block(k, head, word_parts(ws.drop_first(), span))]
            }
            &&& eval_cmd_code(k, b, out) == Option::Some(
                (word_value(ws[0], b), words_args(ws.drop_first(), b)),
            )
        }),
{
    let k = default_krate();
    let text = gapped(ws, gaps);
    let repr = seq!['"'] + text + seq!['"'];
    law_words(ws, gaps, span);
    assert(repr.subrange(1, repr.len() - 1) =~= text);
    let ps = word_parts(ws, span);
    let rest = ws.drop_first();
    assert forall|i: int| 0 <= i < rest.len() implies word_ok(#[trigger] rest[i]) by {
        assert(rest[i] == ws[i + 1]);
    }
    assert(ps.drop_first() =~= word_parts(rest, span));
    let e = Seq::<(Seq<char>, Span)>::empty();
    assert(lex_template_spec(text, span, Span::MixedSite).errors + e =~= e);
    let res = expand_cmd_spec(seq![TreeView::Literal(repr, span)]);
    assert(res.1 =~= e);
    assert(errors_trees(e) =~= Seq::<TreeView>::empty());
    assert(res.0.unwrap() + errors_trees(e) =~= res.0.unwrap());
    let out = res.0.unwrap();
    assert(word_ok(ws[0]));
    lemma_eval_word_part(k, b, ws[0], span);
    let pt = part_tree(k, word_part(ws[0], span));
    let head = call_trees(k, "new_cmd"@, seq![pt]);
    let n = call_prefix(k, "new_cmd"@).len();
    assert(head.subrange(0, n as int) =~= call_prefix(k, "new_cmd"@));
    assert(head[n as int] == TreeView::Group(Delimiter::Parenthesis, seq![pt], Span::CallSite));
    assert(call_arg(k, "new_cmd"@, head) == Option::Some(pt));
    lemma_eval_word_parts(k, b, rest, span);
    lemma_eval_stmts(k, b, word_parts(rest, span));
    if ws.len() == 1 {
        assert(rest.len() == 0);
        assert(Seq::new(0, |i: int| word_args(rest[i], b)) =~= Seq::<Seq<Seq<char>>>::empty());
        assert(words_args(rest, b) =~= Seq::<Seq<char>>::empty());
    } else {
        let stmts = arg_stmts(k, acc_tree(), word_parts(rest, span));
        let body = let_head() + head + seq![punct(';', Spacing::Alone)] + stmts + seq![acc_tree()];
        let hl: int = n as int + 1;
        assert(body.subrange(0, 4) =~= let_head());
        assert(body.subrange(4, 4 + hl) =~= head);
        assert(body[4 + hl] == punct(';', Spacing::Alone));
        assert(body.subrange(5 + hl, body.len() - 1) =~= stmts);
        assert(block_parts(body, hl as int) == Option::Some((head, stmts)));
    }
}

/// `args!` on a template of words with whitespace around them (see
/// `law_words`): the code it expands to is a single block that evaluates to
/// the list of the words' arguments, in order, splices spliced; nothing is
/// reported.
pub proof fn law_args_of_words(ws: Seq<Seq<Atom>>, gaps: Seq<Seq<char>>, span: Span, b: Bindings)
    requires
        ws.len() >= 1,
        forall|i: int| 0 <= i < ws.len() ==> word_ok(#[trigger] ws[i]),
        gaps_ok(ws, gaps),
    ensures
        ({
            let k = default_krate();
            let out = macro_output(
                expand_args_spec(seq![TreeView::Literal(seq!['"'] + gapped(ws, gaps) + seq!['"'], span)]),
            );
            &&& out == seq![builder_block(k, call_trees(k, "new_args"@, Seq::empty()), word_parts(ws, span))]
            &&& eval_args_code(k, b, out) == Option::Some(words_args(ws, b))
        }),
{
    let k = default_krate();
    let text = gapped(ws, gaps);
    let repr = seq!['"'] + text + seq!['"'];
    law_words(ws, gaps, span);
    assert(repr.subrange(1, repr.len() - 1) =~= text);
    let e = Seq::<(Seq<char>, Span)>::empty();
    assert(lex_template_spec(text, span, Span::MixedSite).errors + e =~= e);
    let res = expand_args_spec(seq![TreeView::Literal(repr, span)]);
    assert(res.1 =~= e);
    assert(errors_trees(e) =~= Seq::<TreeView>::empty());
    assert(res.0.unwrap() + errors_trees(e) =~= res.0.unwrap());
    let out = res.0.unwrap();
    lemma_eval_word_parts(k, b, ws, span);
    lemma_eval_stmts(k, b, word_parts(ws, span));
    let head = call_trees(k, "new_args"@, Seq::empty());
    let stmts = arg_stmts(k, acc_tree(), word_parts(ws, span));
    let body = let_head() + head + seq![punct(';', Spacing::Alone)] + stmts + seq![acc_tree()];
    let hl: int = head.len() as int;
    assert(body.subrange(0, 4) =~= let_head());
    assert(body.subrange(4, 4 + hl) =~= head);
    assert(body[4 + hl] == punct(';', Spacing::Alone));
    assert(body.subrange(5 + hl, body.len() - 1) =~= stmts);
    assert(block_parts(body, hl as int) == Option::Some((head, stmts)));
    assert(out == seq![builder_block(k, head, word_parts(ws, span))]);
    assert(out.len() == 1);
    assert(out != head);
}

/// `arg!` on one word that is not a splice, with optional whitespace before
/// and after it: the code it expands to is a single call that evaluates to
/// the word's text; nothing is reported.
pub proof fn law_arg_of_word(w: Seq<Atom>, gaps: Seq<Seq<char>>, span: Span, b: Bindings)
    requires
        word_ok(w),
        gaps_ok(seq![w], gaps),
        !(w[0] is Splice),
    ensures
        ({
            let k = default_krate();
            let out = macro_output(
                expand_arg_spec(seq![TreeView::Literal(seq!['"'] + gapped(seq![w], gaps) + seq!['"'], span)]),
            );
            &&& out == call_trees(k, "new_arg"@, seq![part_tree(k, word_part(w, span))])
            &&& eval_arg_code(k, b, out) == Option::Some(word_value(w, b))
        }),
{
    let k = default_krate();
    let ws = seq![w];
    assert(ws.drop_first() =~= Seq::<Seq<Atom>>::empty());
    assert forall|i: int| 0 <= i < ws.len() implies word_ok(#[trigger] ws[i]) by {}
    law_words(ws, gaps, span);
    let text = gapped(ws, gaps);
    let repr = seq!['"'] + text + seq!['"'];
    assert(repr.subrange(1, repr.len() - 1) =~= text);
    let e = Seq::<(Seq<char>, Span)>::empty();
    assert(lex_template_spec(text, span, Span::MixedSite).errors + e =~= e);
    assert(word_parts(ws, span)[0] == word_part(w, span));
    let res = expand_arg_spec(seq![TreeView::Literal(repr, span)]);
    assert(res.1 =~= e);
    assert(errors_trees(e) =~= Seq::<TreeView>::empty());
    assert(res.0.unwrap() + errors_trees(e) =~= res.0.unwrap());
    lemma_eval_word_part(k, b, w, span);
    let pt = part_tree(k, word_part(w, span));
    let out = call_trees(k, "new_arg"@, seq![pt]);
    let n = call_prefix(k, "new_arg"@).len();
    assert(out.subrange(0, n as int) =~= call_prefix(k, "new_arg"@));
    assert(out[n as int] == TreeView::Group(Delimiter::Parenthesis, seq![pt], Span::CallSite));
}

/// How a configured stdin connects the child: no input for `null`, a pipe
/// for `piped` and for data handed over, the parent's stdin for `inherit`;
/// a stdin that is not configured is left alone. Each output stream is
/// connected as configured, or else as the default: discarded for `null`, a
/// pipe when captured, the parent's stream for `inherit`.
pub proof fn law_stdio_plan(s: StdioView, default_stdout: OutputKind)
    ensures
        ({
            let plan = plan_spec(s, default_stdout);
            &&& s.stdin is None ==> plan.0 is None
            &&& s.stdin == Some(InputMode::Null) ==> plan.0 == Some(StdioMode::Null)
            &&& s.stdin == Some(InputMode::Piped) ==> plan.0 == Some(StdioMode::Piped)
            &&& s.stdin == Some(InputMode::Inherit) ==> plan.0 == Some(StdioMode::Inherit)
            &&& (s.stdin matches Some(InputMode::Data(_))) ==> plan.0 == Some(StdioMode::Piped)
        }),
        ({
            let plan = plan_spec(s, default_stdout);
            let out = if s.stdout is Some { s.stdout.unwrap() } else { default_stdout };
            &&& out == OutputKind::Null ==> plan.1 == StdioMode::Null
            &&& out is Piped ==> plan.1 == StdioMode::Piped
            &&& out == OutputKind::Inherit ==> plan.1 == StdioMode::Inherit
        }),
        ({
            let plan = plan_spec(s, default_stdout);
            let err = if s.stderr is Some { s.stderr.unwrap() } else { default_stdout };
            &&& err == OutputKind::Null ==> plan.2 == StdioMode::Null
            &&& err is Piped ==> plan.2 == StdioMode::Piped
            &&& err == OutputKind::Inherit ==> plan.2 == StdioMode::Inherit
        }),
{
}

/// A character of a Rust identifier written in ASCII.
pub open spec fn ascii_ident_char(c: char) -> bool {
    ||| ('a' as u32) <= (c as u32) <= ('z' as u32)
    ||| ('A' as u32) <= (c as u32) <= ('Z' as u32)
    ||| ('0' as u32) <= (c as u32) <= ('9' as u32)
    ||| c == '_'
}

/// A Rust identifier written in ASCII: letters of either case, digits and
/// `_`, not starting with a digit.
pub open spec fn ascii_identifier(n: Seq<char>) -> bool {
    &&& n.len() > 0
    &&& !(('0' as u32) <= (n[0] as u32) <= ('9' as u32))
    &&& forall|i: int| 0 <= i < n.len() ==> ascii_ident_char(#[trigger] n[i])
}

/// Every identifier is accepted as the name of an interpolation: `{name}`
/// alone is one argument that borrows the variable and `{name..}` alone
/// splices it, with nothing reported.
pub proof fn law_identifier_names(n: Seq<char>, span: Span)
    requires
        ascii_identifier(n),
    ensures
        name_ok(n),
        atom_ok(Atom::Interp(n)),
        atom_ok(Atom::Splice(n)),
        lex_template_spec(seq!['{'] + n + seq!['}'], span, Span::MixedSite).parts == seq![
            PartView::Arg(
                TreeView::Group(
                    Delimiter::Parenthesis,
                    seq![TreeView::Punct('&', Spacing::Alone, Span::CallSite), TreeView::Ident(n, span)],
                    Span::CallSite,
                ),
            ),
        ],
        lex_template_spec(seq!['{'] + n + seq!['.', '.', '}'], span, Span::MixedSite).parts == seq![
            PartView::Splat(TreeView::Ident(n, span)),
        ],
        lex_template_spec(seq!['{'] + n + seq!['}'], span, Span::MixedSite).errors.len() == 0,
        lex_template_spec(seq!['{'] + n + seq!['.', '.', '}'], span, Span::MixedSite).errors.len() == 0,
{
    lemma_identifier_atoms(n);
    lemma_single_piece(Atom::Interp(n), span);
    lemma_single_piece(Atom::Splice(n), span);
    assert(atom_text(Atom::Interp(n)) == seq!['{'] + n + seq!['}']);
    assert(atom_text(Atom::Splice(n)) == seq!['{'] + n + seq!['.', '.', '}']);
}

proof fn lemma_identifier_atoms(n: Seq<char>)
    requires
        ascii_identifier(n),
    ensures
        name_ok(n),
        atom_ok(Atom::Interp(n)),
        atom_ok(Atom::Splice(n)),
{
    assert forall|i: int| 0 <= i < n.len() implies #[trigger] n[i] != '}' && ident_char(n[i]) by {
        assert(ascii_ident_char(n[i]));
    }
    assert(!ends_with_dots(n)) by {
        if n.len() >= 2 {
            assert(ascii_ident_char(n[n.len() - 1]));
        }
    }
}

/// A template of one piece, alone, is that piece's part.
proof fn lemma_single_piece(a: Atom, span: Span)
    requires
        atom_ok(a),
    ensures
        lex_template_spec(atom_text(a), span, Span::MixedSite).parts == seq![atom_part(a, span)],
        lex_template_spec(atom_text(a), span, Span::MixedSite).errors.len() == 0,
{
    let e = Seq::<char>::empty();
    let gaps = seq![e, e];
    let w = seq![a];
    let ws = seq![w];
    assert forall|i: int| 0 <= i < gaps.len() implies all_whitespace(#[trigger] gaps[i]) by {}
    assert(gaps_ok(ws, gaps));
    assert forall|i: int| 0 <= i < ws.len() implies word_ok(#[trigger] ws[i]) by {}
    law_words(ws, gaps, span);
    assert(ws.drop_first() =~= Seq::<Seq<Atom>>::empty());
    assert(w.drop_first() =~= Seq::<Atom>::empty());
    assert(w[0] == a);
    assert(word_text(w.drop_first()) == Seq::<char>::empty());
    assert(word_text(w) == atom_text(a) + Seq::<char>::empty());
    assert(word_text(w) =~= atom_text(a));
    assert(gaps.drop_first()[0] == e);
    assert(gapped(ws.drop_first(), gaps.drop_first()) == e);
    assert(gapped(ws, gaps) == e + word_text(w) + e);
    assert(gapped(ws, gaps) =~= atom_text(a));
    assert(word_parts(ws, span) =~= seq![atom_part(a, span)]);
}

/// Setting a variable gives it the value, whatever it had before (set,
/// removed or nothing), and changes nothing else.
pub proof fn law_env_set_value(e: EnvView, k: Seq<char>, v: Seq<char>)
    ensures
        env_set(e, k, v).vars.contains_key(k),
        env_set(e, k, v).vars[k] == Some(v),
        env_set(e, k, v).vars.remove(k) == e.vars.remove(k),
        env_set(e, k, v).clear == e.clear,
{
    assert(env_set(e, k, v).vars.remove(k) =~= e.vars.remove(k));
}

/// Removing a variable marks it as removed, or after a clear forgets it, and
/// changes nothing else; a clear forgets every change.
pub proof fn law_env_remove_value(e: EnvView, k: Seq<char>)
    ensures
        !e.clear ==> env_remove(e, k).vars.contains_key(k) && env_remove(e, k).vars[k] is None,
        e.clear ==> !env_remove(e, k).vars.contains_key(k),
        env_remove(e, k).vars.remove(k) == e.vars.remove(k),
        env_remove(e, k).clear == e.clear,
        env_clear().clear,
        env_clear().vars.dom().len() == 0,
{
    assert(env_remove(e, k).vars.remove(k) =~= e.vars.remove(k));
    assert(env_clear().vars.dom() =~= Set::<Seq<char>>::empty());
}

/// A character that an argument may hold and still be shown as it is.
pub open spec fn shown_plainly(c: char) -> bool {
    ||| ('a' as u32) <= (c as u32) <= ('z' as u32)
    ||| ('A' as u32) <= (c as u32) <= ('Z' as u32)
    ||| ('0' as u32) <= (c as u32) <= ('9' as u32)
    ||| c == '-' || c == '_' || c == '=' || c == '/' || c == ',' || c == '.' || c == '+'
}

pub open spec fn all_shown_plainly(s: Seq<char>) -> bool {
    s.len() > 0 && forall|i: int| 0 <= i < s.len() ==> shown_plainly(#[trigger] s[i])
}

/// The arguments, each after a space.
pub open spec fn space_led(args: Seq<Seq<char>>) -> Seq<char>
    decreases args.len(),
{
    if args.len() == 0 {
        Seq::empty()
    } else {
        " "@ + args[0] + space_led(args.drop_first())
    }
}

/// An argument of ASCII letters, digits and `- _ = / , . +` is shown as it
/// is, without quotes.
pub proof fn law_plain_argument_shown_as_is(s: Seq<char>)
    requires
        all_shown_plainly(s),
    ensures
        display_arg(s) == s,
{
    assert forall|i: int| 0 <= i < s.len() implies is_plain_char(#[trigger] s[i]) by {
        assert(shown_plainly(s[i]));
    }
}

proof fn lemma_space_led_last(args: Seq<Seq<char>>)
    requires
        args.len() > 0,
    ensures
        space_led(args) == space_led(args.drop_last()) + " "@ + args.last(),
    decreases args.len(),
{
    if args.len() == 1 {
        assert(args.drop_first() =~= Seq::<Seq<char>>::empty());
        assert(args.drop_last() =~= Seq::<Seq<char>>::empty());
        assert(space_led(args) =~= Seq::<char>::empty() + " "@ + args.last());
    } else {
        let r = args.drop_first();
        lemma_space_led_last(r);
        assert(r.drop_last() =~= args.drop_last().drop_first());
        assert(args.drop_last()[0] == args[0]);
        assert(r.last() == args.last());
        assert(space_led(args) =~= space_led(args.drop_last()) + " "@ + args.last());
    }
}

proof fn lemma_join_plain(args: Seq<Seq<char>>)
    requires
        args.len() > 0,
        forall|i: int| 0 <= i < args.len() ==> all_shown_plainly(#[trigger] args[i]),
    ensures
        " "@ + join_display(args) == space_led(args),
    decreases args.len(),
{
    lemma_space_led_last(args);
    assert(all_shown_plainly(args[args.len() - 1]));
    law_plain_argument_shown_as_is(args.last());
    if args.len() == 1 {
        assert(args.drop_last() =~= Seq::<Seq<char>>::empty());
        assert(" "@ + join_display(args) =~= Seq::<char>::empty() + " "@ + args.last());
    } else {
        let p = args.drop_last();
        assert forall|i: int| 0 <= i < p.len() implies all_shown_plainly(#[trigger] p[i]) by {
            assert(p[i] == args[i]);
        }
        lemma_join_plain(p);
        assert(" "@ + join_display(args) =~= (" "@ + join_display(p)) + " "@ + args.last());
    }
}

/// A command whose program and arguments are plain is shown as the program
/// and each argument after a space, between backquotes: for example
/// `` `cc -O2 hello.c -o hello` ``.
pub proof fn law_plain_command_display(program: Seq<char>, args: Seq<Seq<char>>)
    requires
        all_shown_plainly(program),
        forall|i: int| 0 <= i < args.len() ==> all_shown_plainly(#[trigger] args[i]),
    ensures
        cmd_display(program, args) == "`"@ + program + space_led(args) + "`"@,
{
    law_plain_argument_shown_as_is(program);
    if args.len() > 0 {
        lemma_join_plain(args);
        assert("`"@ + program + " "@ + join_display(args) + "`"@ =~= "`"@ + program + (" "@
            + join_display(args)) + "`"@);
    } else {
        assert(space_led(args) =~= Seq::<char>::empty());
        assert("`"@ + program + space_led(args) + "`"@ =~= "`"@ + program + "`"@);
    }
}

/// Text stands for one argument with exactly that text.
pub proof fn law_text_is_one_argument(s: &str, t: String)
    ensures
        s.arg_text() == s@,
        t.arg_text() == t@,
{
}

/// A slice, an array or a vector stands for all its items, in order; an
/// option for its item if it has one.
pub proof fn law_lists_of_arguments<T: AsArg, const N: usize>(
    s: &[T],
    a: [T; N],
    v: Vec<T>,
    o: Option<T>,
)
    ensures
        s.args_text().len() == s@.len(),
        forall|i: int| 0 <= i < s@.len() ==> s.args_text()[i] == (#[trigger] s@[i]).arg_text(),
        a.args_text().len() == a@.len(),
        forall|i: int| 0 <= i < a@.len() ==> a.args_text()[i] == (#[trigger] a@[i]).arg_text(),
        v.args_text().len() == v@.len(),
        forall|i: int| 0 <= i < v@.len() ==> v.args_text()[i] == (#[trigger] v@[i]).arg_text(),
        o matches Some(t) ==> o.args_text() == seq![t.arg_text()],
        o is None ==> o.args_text().len() == 0,
{
}

} // verus!
