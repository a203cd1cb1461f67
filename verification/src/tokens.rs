//! Token trees that the template macros read and write, held as plain values.

use vstd::prelude::*;

verus! {

/// How a group of tokens is delimited.
#[derive(Debug, Clone, Copy, PartialEq, Eq, Structural)]
pub enum Delimiter {
    Parenthesis,
    Brace,
    Bracket,
    /// An invisible delimiter, as left around a substituted macro fragment.
    Invisible,
}

/// Whether a punctuation character is joined to the next one.
#[derive(Debug, Clone, Copy, PartialEq, Eq, Structural)]
pub enum Spacing {
    Joint,
    Alone,
}

/// Where a token comes from: the macro's call site, its own hygiene context,
/// or a position in the macro's input.
#[derive(Debug, Clone, Copy, PartialEq, Eq, Structural)]
pub enum Span {
    CallSite,
    MixedSite,
    Source(u64),
}

/// A token tree.
#[derive(Debug, PartialEq, Eq)]
pub enum TokenTree {
    Group { delimiter: Delimiter, stream: Vec<TokenTree>, span: Span },
    Ident { name: String, span: Span },
    Punct { ch: char, spacing: Spacing, span: Span },
    /// A literal as written in the source, quotes and escapes included.
    Literal { repr: String, span: Span },
    /// A string literal made from its value.
    StrLiteral { value: String, span: Span },
}

/// The mathematical value of a token tree.
pub enum TreeView {
    Group(Delimiter, Seq<TreeView>, Span),
    Ident(Seq<char>, Span),
    Punct(char, Spacing, Span),
    Literal(Seq<char>, Span),
    StrLiteral(Seq<char>, Span),
}

pub open spec fn tree_view(t: TokenTree) -> TreeView
    decreases t,
{
    match t {
        TokenTree::Group { delimiter, stream, span } => TreeView::Group(
            delimiter,
            trees_view(stream@),
            span,
        ),
        TokenTree::Ident { name, span } => TreeView::Ident(name@, span),
        TokenTree::Punct { ch, spacing, span } => TreeView::Punct(ch, spacing, span),
        TokenTree::Literal { repr, span } => TreeView::Literal(repr@, span),
        TokenTree::StrLiteral { value, span } => TreeView::StrLiteral(value@, span),
    }
}

pub open spec fn trees_view(s: Seq<TokenTree>) -> Seq<TreeView>
    decreases s,
{
    if s.len() == 0 {
        Seq::empty()
    } else {
        seq![tree_view(s[0])] + trees_view(s.subrange(1, s.len() as int))
    }
}

impl View for TokenTree {
    type V = TreeView;

    open spec fn view(&self) -> TreeView {
        tree_view(*self)
    }
}

/// The views of a token stream.
pub open spec fn stream_view(v: Vec<TokenTree>) -> Seq<TreeView> {
    trees_view(v@)
}

pub open spec fn span_of(t: TreeView) -> Span {
    match t {
        TreeView::Group(_, _, span) => span,
        TreeView::Ident(_, span) => span,
        TreeView::Punct(_, _, span) => span,
        TreeView::Literal(_, span) => span,
        TreeView::StrLiteral(_, span) => span,
    }
}

/// `trees_view` element by element.
pub proof fn lemma_trees_view(s: Seq<TokenTree>)
    ensures
        trees_view(s).len() == s.len(),
        forall|i: int| 0 <= i < s.len() ==> #[trigger] trees_view(s)[i] == tree_view(s[i]),
    decreases s.len(),
{
    if s.len() > 0 {
        lemma_trees_view(s.subrange(1, s.len() as int));
    }
}

/// Two sequences of trees have the same view when their elements do.
pub proof fn lemma_trees_view_ext(a: Seq<TokenTree>, b: Seq<TokenTree>)
    requires
        a.len() == b.len(),
        forall|i: int| 0 <= i < a.len() ==> tree_view(#[trigger] a[i]) == tree_view(b[i]),
    ensures
        trees_view(a) == trees_view(b),
{
    lemma_trees_view(a);
    lemma_trees_view(b);
    assert(trees_view(a) =~= trees_view(b));
}

/// Views of a pushed sequence.
pub proof fn lemma_trees_view_push(s: Seq<TokenTree>, t: TokenTree)
    ensures
        trees_view(s.push(t)) == trees_view(s).push(tree_view(t)),
{
    lemma_trees_view(s);
    lemma_trees_view(s.push(t));
    assert(trees_view(s.push(t)) =~= trees_view(s).push(tree_view(t)));
}

/// Views of a concatenation.
pub proof fn lemma_trees_view_add(a: Seq<TokenTree>, b: Seq<TokenTree>)
    ensures
        trees_view(a + b) == trees_view(a) + trees_view(b),
{
    lemma_trees_view(a);
    lemma_trees_view(b);
    lemma_trees_view(a + b);
    assert(trees_view(a + b) =~= trees_view(a) + trees_view(b));
}

impl TokenTree {
    /// A copy of the tree.
    pub fn copy(&self) -> (r: TokenTree)
        ensures
            r@ == self@,
        decreases self,
    {
        match self {
            TokenTree::Group { delimiter, stream, span } => {
                let v = copy_stream(stream);
                TokenTree::Group { delimiter: *delimiter, stream: v, span: *span }
            },
            TokenTree::Ident { name, span } => TokenTree::Ident { name: name.clone(), span: *span },
            TokenTree::Punct { ch, spacing, span } => TokenTree::Punct {
                ch: *ch,
                spacing: *spacing,
                span: *span,
            },
            TokenTree::Literal { repr, span } => TokenTree::Literal {
                repr: repr.clone(),
                span: *span,
            },
            TokenTree::StrLiteral { value, span } => TokenTree::StrLiteral {
                value: value.clone(),
                span: *span,
            },
        }
    }

    /// The tree's span.
    pub fn span(&self) -> (r: Span)
        ensures
            r == span_of(self@),
    {
        match self {
            TokenTree::Group { span, .. } => *span,
            TokenTree::Ident { span, .. } => *span,
            TokenTree::Punct { span, .. } => *span,
            TokenTree::Literal { span, .. } => *span,
            TokenTree::StrLiteral { span, .. } => *span,
        }
    }
}

/// A copy of a token stream.
pub fn copy_stream(s: &Vec<TokenTree>) -> (r: Vec<TokenTree>)
    ensures
        stream_view(r) == stream_view(*s),
    decreases s,
{
    let mut r: Vec<TokenTree> = Vec::new();
    let mut i: usize = 0;
    while i < s.len()
        invariant
            i <= s.len(),
            r@.len() == i,
            forall|j: int| 0 <= j < i ==> tree_view(#[trigger] r@[j]) == tree_view(s@[j]),
        decreases s.len() - i,
    {
        r.push(s[i].copy());
        i += 1;
    }
    proof {
        lemma_trees_view_ext(r@, s@);
    }
    r
}

/// Appends a copy of `src` to `dst`.
pub fn extend_copy(dst: &mut Vec<TokenTree>, src: &Vec<TokenTree>)
    ensures
        stream_view(*final(dst)) == stream_view(*old(dst)) + stream_view(*src),
{
    let ghost d0 = dst@;
    let mut i: usize = 0;
    while i < src.len()
        invariant
            i <= src.len(),
            trees_view(dst@) == trees_view(d0) + trees_view(src@.subrange(0, i as int)),
        decreases src.len() - i,
    {
        let t = src[i].copy();
        proof {
            lemma_trees_view_push(dst@, t);
            lemma_trees_view_push(src@.subrange(0, i as int), src@[i as int]);
            assert(src@.subrange(0, i as int).push(src@[i as int]) =~= src@.subrange(0, i + 1));
        }
        dst.push(t);
        i += 1;
    }
    assert(src@.subrange(0, i as int) =~= src@);
}

/// Appends the trees to the stream.
pub fn push_all(dst: &mut Vec<TokenTree>, mut items: Vec<TokenTree>)
    ensures
        stream_view(*final(dst)) == stream_view(*old(dst)) + stream_view(items),
{
    proof {
        lemma_trees_view_add(dst@, items@);
    }
    dst.append(&mut items);
}

} // verus!
