//! The token trees that templates are made of.

use vstd::prelude::*;
use proc_macro2::Span;

verus! {

/// Whether a punctuation mark is glued to the one that follows it.
#[derive(Clone, Copy, Debug, PartialEq, Eq, Structural)]
pub enum Spacing {
    Alone,
    Joint,
}

/// The brackets round a group.
#[derive(Clone, Copy, Debug, PartialEq, Eq, Structural)]
pub enum Delimiter {
    Parenthesis,
    Brace,
    Bracket,
    /// No visible brackets: the group only holds its tokens together.
    Invisible,
}

/// An identifier, as written.
#[derive(Debug)]
pub struct Ident {
    pub text: String,
    pub span: Span,
}

/// One punctuation character.
#[derive(Clone, Copy, Debug)]
pub struct Punct {
    pub ch: char,
    pub spacing: Spacing,
    pub span: Span,
}

/// A literal, as written.
#[derive(Debug)]
pub struct Literal {
    pub text: String,
    pub span: Span,
}

/// A delimited run of tokens.
#[derive(Debug)]
pub struct Group {
    pub delimiter: Delimiter,
    pub stream: Vec<TokenTree>,
    pub span: Span,
}

/// One node of a template.
#[derive(Debug)]
pub enum TokenTree {
    Group(Group),
    Ident(Ident),
    Punct(Punct),
    Literal(Literal),
}

/// What an identifier is to the contracts: its characters and its span.
pub struct IdentView {
    pub text: Seq<char>,
    pub span: Span,
}

/// What a token is to the contracts.
pub enum TokenView {
    Group { delimiter: Delimiter, stream: Seq<TokenView>, span: Span },
    Ident { text: Seq<char>, span: Span },
    Punct { ch: char, spacing: Spacing, span: Span },
    Literal { text: Seq<char>, span: Span },
}

impl View for Ident {
    type V = IdentView;

    open spec fn view(&self) -> IdentView {
        IdentView { text: self.text@, span: self.span }
    }
}

impl View for TokenTree {
    type V = TokenView;

    open spec fn view(&self) -> TokenView
        decreases self,
    {
        match self {
            TokenTree::Group(g) => TokenView::Group {
                delimiter: g.delimiter,
                stream: stream_view(g.stream@),
                span: g.span,
            },
            TokenTree::Ident(i) => TokenView::Ident { text: i.text@, span: i.span },
            TokenTree::Punct(p) => TokenView::Punct { ch: p.ch, spacing: p.spacing, span: p.span },
            TokenTree::Literal(l) => TokenView::Literal { text: l.text@, span: l.span },
        }
    }
}

/// The tokens of a stream, each by its view.
pub open spec fn stream_view(stream: Seq<TokenTree>) -> Seq<TokenView>
    decreases stream,
{
    Seq::new(
        stream.len(),
        |i: int|
            if 0 <= i < stream.len() {
                stream[i]@
            } else {
                arbitrary()
            },
    )
}

} // verus!
