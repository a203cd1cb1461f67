//! What the code generated by the command macros evaluates to, given what the
//! variables it names hold. The meaning of each helper call is the contract of
//! the function it calls: `new_string` is empty, `push` appends a piece,
//! `new_cmd` starts a command, `arg` appends an argument, `args` appends a list.

use vstd::prelude::*;
use crate::expand::{
    acc_tree, arg_stmt, arg_stmts, builder_block, call_trees, concat_tree, let_head, part_tree,
    punct, push_stmt, push_stmts, KrateView,
};
use crate::template::PartView;
use crate::tokens::{Delimiter, Spacing, Span, TreeView};

verus! {

/// What the variables named in a template hold: the text of a value that
/// stands for one argument, and the texts of a value that stands for a list.
pub struct Bindings {
    pub text: spec_fn(Seq<char>) -> Seq<char>,
    pub list: spec_fn(Seq<char>) -> Seq<Seq<char>>,
}

/// `<plumbing>::ident` without the parenthesized arguments.
pub open spec fn call_prefix(k: KrateView, ident: Seq<char>) -> Seq<TreeView> {
    k.plumbing + seq![
        punct(':', Spacing::Joint),
        punct(':', Spacing::Alone),
        TreeView::Ident(ident, k.private_span),
    ]
}

/// `let mut acc = <plumbing>::new_string();`
pub open spec fn concat_head(k: KrateView) -> Seq<TreeView> {
    let_head() + call_trees(k, "new_string"@, Seq::empty()) + seq![punct(';', Spacing::Alone)]
}

/// The text an argument expression evaluates to: a string literal, a borrowed
/// variable `(&name)`, or a block that glues pieces onto `new_string()`.
pub open spec fn eval_text(k: KrateView, b: Bindings, t: TreeView) -> Option<Seq<char>>
    decreases t,
{
    match t {
        TreeView::StrLiteral(v, _) => Option::Some(v),
        TreeView::Group(Delimiter::Parenthesis, s, _) => if s.len() == 2 && s[0] == punct(
            '&',
            Spacing::Alone,
        ) {
            match s[1] {
                TreeView::Ident(name, _) => Option::Some((b.text)(name)),
                _ => Option::None,
            }
        } else {
            Option::None
        },
        TreeView::Group(Delimiter::Brace, s, _) => {
            let h = concat_head(k).len();
            if s.len() >= h + 1 && s.subrange(0, h as int) == concat_head(k) && s.last() == acc_tree() {
                eval_pushes(k, b, s.subrange(h as int, s.len() - 1))
            } else {
                Option::None
            }
        },
        _ => Option::None,
    }
}

/// The text that `acc.push(p1); ... acc.push(pn);` appends.
pub open spec fn eval_pushes(k: KrateView, b: Bindings, s: Seq<TreeView>) -> Option<Seq<char>>
    decreases s,
{
    if s.len() == 0 {
        Option::Some(Seq::empty())
    } else if s.len() >= 5 && s[s.len() - 5] == acc_tree() && s[s.len() - 4] == punct(
        '.',
        Spacing::Alone,
    ) && s[s.len() - 3] == TreeView::Ident("push"@, Span::MixedSite) && s[s.len() - 1] == punct(
        ';',
        Spacing::Alone,
    ) {
        match s[s.len() - 2] {
            TreeView::Group(Delimiter::Parenthesis, a, _) => if a.len() == 1 {
                match (eval_pushes(k, b, s.subrange(0, s.len() - 5)), eval_text(k, b, a[0])) {
                    (Option::Some(x), Option::Some(y)) => Option::Some(x + y),
                    _ => Option::None,
                }
            } else {
                Option::None
            },
            _ => Option::None,
        }
    } else {
        Option::None
    }
}

/// The arguments that `acc.arg(e);` / `acc.args(list);` statements append.
pub open spec fn eval_stmts(k: KrateView, b: Bindings, s: Seq<TreeView>) -> Option<Seq<Seq<char>>>
    decreases s.len(),
{
    if s.len() == 0 {
        Option::Some(Seq::empty())
    } else if s.len() >= 5 && s[s.len() - 5] == acc_tree() && s[s.len() - 4] == punct(
        '.',
        Spacing::Alone,
    ) && s[s.len() - 1] == punct(';', Spacing::Alone) {
        match (eval_stmts(k, b, s.subrange(0, s.len() - 5)), s[s.len() - 2]) {
            (Option::Some(prev), TreeView::Group(Delimiter::Parenthesis, a, _)) => if a.len() == 1 {
                if s[s.len() - 3] == TreeView::Ident("arg"@, k.private_span) {
                    match eval_text(k, b, a[0]) {
                        Option::Some(x) => Option::Some(prev.push(x)),
                        Option::None => Option::None,
                    }
                } else if s[s.len() - 3] == TreeView::Ident("args"@, k.private_span) {
                    match a[0] {
                        TreeView::Ident(name, _) => Option::Some(prev + (b.list)(name)),
                        _ => Option::None,
                    }
                } else {
                    Option::None
                }
            } else {
                Option::None
            },
            _ => Option::None,
        }
    } else {
        Option::None
    }
}

/// The single argument of a call `<plumbing>::ident(e)`.
pub open spec fn call_arg(k: KrateView, ident: Seq<char>, s: Seq<TreeView>) -> Option<TreeView> {
    let n = call_prefix(k, ident).len();
    if s.len() == n + 1 && s.subrange(0, n as int) == call_prefix(k, ident) {
        match s[n as int] {
            TreeView::Group(Delimiter::Parenthesis, a, _) => if a.len() == 1 {
                Option::Some(a[0])
            } else {
                Option::None
            },
            _ => Option::None,
        }
    } else {
        Option::None
    }
}

/// The statements of `{ let mut acc = <head>; <stmts> acc }` after a head of
/// `head_len` tokens.
pub open spec fn block_parts(s: Seq<TreeView>, head_len: int) -> Option<(Seq<TreeView>, Seq<TreeView>)> {
    if s.len() >= 4 + head_len + 2 && s.subrange(0, 4) == let_head() && s[4 + head_len] == punct(
        ';',
        Spacing::Alone,
    ) && s.last() == acc_tree() {
        Option::Some((s.subrange(4, 4 + head_len), s.subrange(5 + head_len, s.len() - 1)))
    } else {
        Option::None
    }
}

/// The program and arguments of the command that code generated by `cmd!`
/// evaluates to.
pub open spec fn eval_cmd_code(k: KrateView, b: Bindings, out: Seq<TreeView>) -> Option<
    (Seq<char>, Seq<Seq<char>>),
> {
    let hl = call_prefix(k, "new_cmd"@).len() + 1;
    if out.len() == hl {
        match call_arg(k, "new_cmd"@, out) {
            Option::Some(e) => match eval_text(k, b, e) {
                Option::Some(p) => Option::Some((p, Seq::empty())),
                Option::None => Option::None,
            },
            Option::None => Option::None,
        }
    } else if out.len() == 1 {
        match out[0] {
            TreeView::Group(Delimiter::Brace, body, _) => match block_parts(body, hl as int) {
                Option::Some((head, stmts)) => match call_arg(k, "new_cmd"@, head) {
                    Option::Some(e) => match (eval_text(k, b, e), eval_stmts(k, b, stmts)) {
                        (Option::Some(p), Option::Some(a)) => Option::Some((p, a)),
                        _ => Option::None,
                    },
                    Option::None => Option::None,
                },
                Option::None => Option::None,
            },
            _ => Option::None,
        }
    } else {
        Option::None
    }
}

/// The arguments of the list that code generated by `args!` evaluates to.
pub open spec fn eval_args_code(k: KrateView, b: Bindings, out: Seq<TreeView>) -> Option<
    Seq<Seq<char>>,
> {
    let head = call_trees(k, "new_args"@, Seq::empty());
    if out == head {
        Option::Some(Seq::empty())
    } else if out.len() == 1 {
        match out[0] {
            TreeView::Group(Delimiter::Brace, body, _) => match block_parts(body, head.len() as int) {
                Option::Some((h, stmts)) => if h == head {
                    eval_stmts(k, b, stmts)
                } else {
                    Option::None
                },
                Option::None => Option::None,
            },
            _ => Option::None,
        }
    } else {
        Option::None
    }
}

/// The argument that code generated by `arg!` evaluates to.
pub open spec fn eval_arg_code(k: KrateView, b: Bindings, out: Seq<TreeView>) -> Option<Seq<char>> {
    match call_arg(k, "new_arg"@, out) {
        Option::Some(e) => eval_text(k, b, e),
        Option::None => Option::None,
    }
}

/// The texts of pieces glued together, in order.
pub open spec fn concat_texts(xs: Seq<Seq<char>>) -> Seq<char>
    decreases xs.len(),
{
    if xs.len() == 0 {
        Seq::empty()
    } else {
        concat_texts(xs.drop_last()) + xs.last()
    }
}

/// The lists joined in order.
pub open spec fn flatten(xs: Seq<Seq<Seq<char>>>) -> Seq<Seq<char>>
    decreases xs.len(),
{
    if xs.len() == 0 {
        Seq::empty()
    } else {
        flatten(xs.drop_last()) + xs.last()
    }
}

/// The texts that the pieces evaluate to, when each does.
pub open spec fn eval_all(k: KrateView, b: Bindings, ts: Seq<TreeView>) -> Option<Seq<Seq<char>>>
    decreases ts.len(),
{
    if ts.len() == 0 {
        Option::Some(Seq::empty())
    } else {
        match (eval_all(k, b, ts.drop_last()), eval_text(k, b, ts.last())) {
            (Option::Some(xs), Option::Some(x)) => Option::Some(xs.push(x)),
            _ => Option::None,
        }
    }
}

/// The arguments a part stands for.
pub open spec fn eval_part(k: KrateView, b: Bindings, p: PartView) -> Option<Seq<Seq<char>>> {
    match p {
        PartView::Splat(TreeView::Ident(name, _)) => Option::Some((b.list)(name)),
        PartView::Splat(_) => Option::None,
        _ => match eval_text(k, b, part_tree(k, p)) {
            Option::Some(x) => Option::Some(seq![x]),
            Option::None => Option::None,
        },
    }
}

/// The arguments the parts stand for, when each does.
pub open spec fn eval_parts(k: KrateView, b: Bindings, ps: Seq<PartView>) -> Option<Seq<Seq<Seq<char>>>>
    decreases ps.len(),
{
    if ps.len() == 0 {
        Option::Some(Seq::empty())
    } else {
        match (eval_parts(k, b, ps.drop_last()), eval_part(k, b, ps.last())) {
            (Option::Some(xs), Option::Some(x)) => Option::Some(xs.push(x)),
            _ => Option::None,
        }
    }
}

proof fn lemma_split5(pre: Seq<TreeView>, c: Seq<TreeView>)
    requires
        c.len() == 5,
    ensures
        (pre + c).len() == pre.len() + 5,
        (pre + c).subrange(0, pre.len() as int) == pre,
        forall|i: int| 0 <= i < 5 ==> #[trigger] (pre + c)[pre.len() + i] == c[i],
{
    assert((pre + c).subrange(0, pre.len() as int) =~= pre);
}

/// `acc.push(p1); ...` appends the glued texts of the pieces.
pub proof fn lemma_eval_pushes(k: KrateView, b: Bindings, ts: Seq<TreeView>)
    ensures
        eval_pushes(k, b, push_stmts(ts)) == match eval_all(k, b, ts) {
            Option::Some(xs) => Option::Some(concat_texts(xs)),
            Option::None => Option::None,
        },
    decreases ts.len(),
{
    if ts.len() > 0 {
        lemma_eval_pushes(k, b, ts.drop_last());
        let pre = push_stmts(ts.drop_last());
        let c = push_stmt(ts.last());
        lemma_split5(pre, c);
        let s = pre + c;
        assert(s[s.len() - 2] == c[3]);
        assert(s[s.len() - 5] == c[0]);
        assert(s[s.len() - 4] == c[1]);
        assert(s[s.len() - 3] == c[2]);
        assert(s[s.len() - 1] == c[4]);
        assert(s.subrange(0, s.len() - 5) == pre);
        let a = seq![ts.last()];
        assert(c[3] == TreeView::Group(Delimiter::Parenthesis, a, Span::CallSite));
        assert(a[0] == ts.last());
        match eval_all(k, b, ts.drop_last()) {
            Option::Some(xs) => {
                match eval_text(k, b, ts.last()) {
                    Option::Some(x) => {
                        assert(xs.push(x).drop_last() =~= xs);
                    },
                    Option::None => {},
                }
            },
            Option::None => {},
        }
    }
}

/// A glue block evaluates to the concatenation of its pieces.
pub proof fn lemma_eval_concat(k: KrateView, b: Bindings, ts: Seq<TreeView>)
    ensures
        eval_text(k, b, concat_tree(k, ts)) == match eval_all(k, b, ts) {
            Option::Some(xs) => Option::Some(concat_texts(xs)),
            Option::None => Option::None,
        },
{
    lemma_eval_pushes(k, b, ts);
    let h = concat_head(k);
    let s = h + push_stmts(ts) + seq![acc_tree()];
    assert(s.subrange(0, h.len() as int) =~= h);
    assert(s.subrange(h.len() as int, s.len() - 1) =~= push_stmts(ts));
    assert(let_head() + call_trees(k, "new_string"@, Seq::empty()) + seq![punct(';', Spacing::Alone)]
        + push_stmts(ts) + seq![acc_tree()] == s);
}

/// The statements of a builder append the arguments of the parts, in order.
pub proof fn lemma_eval_stmts(k: KrateView, b: Bindings, ps: Seq<PartView>)
    ensures
        eval_stmts(k, b, arg_stmts(k, acc_tree(), ps)) == match eval_parts(k, b, ps) {
            Option::Some(xs) => Option::Some(flatten(xs)),
            Option::None => Option::None,
        },
    decreases ps.len(),
{
    if ps.len() > 0 {
        lemma_eval_stmts(k, b, ps.drop_last());
        let pre = arg_stmts(k, acc_tree(), ps.drop_last());
        let p = ps.last();
        let c = arg_stmt(k, acc_tree(), p);
        assert(c.len() == 5);
        lemma_split5(pre, c);
        let s = pre + c;
        assert(s[s.len() - 2] == c[3]);
        assert(s[s.len() - 5] == c[0]);
        assert(s[s.len() - 4] == c[1]);
        assert(s[s.len() - 3] == c[2]);
        assert(s[s.len() - 1] == c[4]);
        assert(s.subrange(0, s.len() - 5) == pre);
        assert("arg"@ != "args"@) by {
            reveal_strlit("arg");
            reveal_strlit("args");
            assert("arg"@.len() != "args"@.len());
        }
        let a = seq![part_tree(k, p)];
        assert(c[3] == TreeView::Group(Delimiter::Parenthesis, a, Span::CallSite));
        assert(a[0] == part_tree(k, p));
        match eval_parts(k, b, ps.drop_last()) {
            Option::Some(xs) => {
                match eval_part(k, b, p) {
                    Option::Some(x) => {
                        assert(xs.push(x).drop_last() =~= xs);
                        assert(flatten(xs.push(x)) == flatten(xs) + x);
                    },
                    Option::None => {},
                }
            },
            Option::None => {},
        }
    }
}

} // verus!
