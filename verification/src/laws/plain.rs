//! Templates without markers: every token is rebuilt as it stands.

use vstd::prelude::*;
use proc_macro2::Span;
use crate::error::Error;
use crate::grammar::{literal_instruction, marker, parse_spec, walk, Marker, Mode, Walk};
use crate::literal::{is_verbatim, LiteralKind};
use crate::program::InstructionView;
use crate::tokens::{IdentView, Punct, TokenView};

verus! {

/// A literal whose text ends in a type suffix, a quote or a `#` is rebuilt
/// as written: the instruction holds the very text of the template.
pub proof fn lemma_verbatim_literal(text: Seq<char>, span: Span)
    requires
        is_verbatim(text),
    ensures
        literal_instruction(text, span) == (InstructionView::Literal {
            kind: LiteralKind::Verbatim,
            text,
            span,
        }),
{
}

/// No `#` stands in the token, at any depth.
pub open spec fn token_marker_free(token: TokenView) -> bool
    decreases token,
{
    match token {
        TokenView::Punct { ch, .. } => ch != '#',
        TokenView::Group { stream, .. } => marker_free(stream),
        _ => true,
    }
}

/// No `#` stands among the tokens, at any depth.
pub open spec fn marker_free(tokens: Seq<TokenView>) -> bool
    decreases tokens,
{
    forall|i: int| 0 <= i < tokens.len() ==> token_marker_free(#[trigger] tokens[i])
}

/// The instruction that appends the token as it stands: its text, its
/// spacing, its delimiter and its span, and for a group the same of the
/// tokens in it.
pub open spec fn plain_instruction(token: TokenView) -> InstructionView
    decreases token,
{
    match token {
        TokenView::Group { delimiter, stream, span } => InstructionView::Group {
            delimiter,
            inner: plain_program(stream),
            span,
        },
        TokenView::Ident { text, span } => InstructionView::Ident(IdentView { text, span }),
        TokenView::Punct { ch, spacing, span } => InstructionView::Punct(
            Punct { ch, spacing, span },
        ),
        TokenView::Literal { text, span } => literal_instruction(text, span),
    }
}

/// One instruction for each token, in the order of the tokens.
pub open spec fn plain_program(tokens: Seq<TokenView>) -> Seq<InstructionView>
    decreases tokens,
{
    Seq::new(
        tokens.len(),
        |i: int|
            if 0 <= i < tokens.len() {
                plain_instruction(tokens[i])
            } else {
                arbitrary()
            },
    )
}

/// Reading tokens without a `#` to their end, from any place on and
/// wherever they stand, appends one instruction for each token that is
/// left, and records no name.
pub proof fn lemma_plain_walk(
    tokens: Seq<TokenView>,
    pos: int,
    mode: Mode,
    program: Seq<InstructionView>,
    names: Seq<IdentView>,
)
    requires
        marker_free(tokens),
        0 <= pos <= tokens.len(),
    ensures
        walk(tokens, pos, tokens.len() as int, mode, program, names) == Ok::<Walk, Error>(
            Walk {
                program: program + plain_program(tokens).subrange(pos, tokens.len() as int),
                names,
            },
        ),
    decreases tokens, tokens.len() - pos,
{
    let rest = plain_program(tokens).subrange(pos, tokens.len() as int);
    if pos == tokens.len() {
        assert(program + rest =~= program);
    } else {
        let token = tokens[pos];
        assert(token_marker_free(token));
        let after = plain_program(tokens).subrange(pos + 1, tokens.len() as int);
        let instruction = plain_instruction(token);
        assert(program + rest =~= program.push(instruction) + after);
        match token {
            TokenView::Group { delimiter, stream, span } => {
                if mode is Repetition {
                    lemma_plain_walk(stream, 0, Mode::Repetition, Seq::empty(), names);
                } else {
                    lemma_plain_walk(stream, 0, Mode::Plain, Seq::empty(), Seq::empty());
                }
                assert(Seq::<InstructionView>::empty() + plain_program(stream).subrange(
                    0,
                    stream.len() as int,
                ) =~= plain_program(stream));
            },
            TokenView::Punct { ch, .. } => {
                assert(marker(ch, tokens, pos + 1) == Marker::Absent);
            },
            _ => {},
        }
        lemma_plain_walk(tokens, pos + 1, mode, program.push(instruction), names);
    }
}

/// A template without a `#` compiles to one instruction for each of its
/// tokens, in their order, each with the token's text, spacing, delimiter
/// and span; a group's tokens likewise, in the group's own program.
pub proof fn lemma_plain_template(tokens: Seq<TokenView>)
    requires
        marker_free(tokens),
    ensures
        parse_spec(tokens) == Ok::<Seq<InstructionView>, Error>(plain_program(tokens)),
{
    lemma_plain_walk(tokens, 0, Mode::Plain, Seq::empty(), Seq::empty());
    assert(Seq::<InstructionView>::empty() + plain_program(tokens).subrange(
        0,
        tokens.len() as int,
    ) =~= plain_program(tokens));
}

/// Reading tokens to their end gives no error, if no `#` stands at or
/// behind the place where the reading starts.
pub proof fn lemma_marker_free_walk(
    tokens: Seq<TokenView>,
    pos: int,
    mode: Mode,
    program: Seq<InstructionView>,
    names: Seq<IdentView>,
)
    requires
        0 <= pos <= tokens.len(),
        forall|k: int| pos <= k < tokens.len() ==> token_marker_free(#[trigger] tokens[k]),
    ensures
        walk(tokens, pos, tokens.len() as int, mode, program, names) is Ok,
    decreases tokens.len() - pos,
{
    if pos < tokens.len() {
        let token = tokens[pos];
        assert(token_marker_free(token));
        match token {
            TokenView::Group { delimiter, stream, span } => {
                let inner_mode = if mode is Repetition {
                    Mode::Repetition
                } else {
                    Mode::Plain
                };
                let inner_names = if mode is Repetition {
                    names
                } else {
                    Seq::empty()
                };
                lemma_plain_walk(stream, 0, inner_mode, Seq::empty(), inner_names);
                let w = walk(stream, 0, stream.len() as int, inner_mode, Seq::empty(), inner_names)
                    ->Ok_0;
                lemma_marker_free_walk(
                    tokens,
                    pos + 1,
                    mode,
                    program.push(InstructionView::Group { delimiter, inner: w.program, span }),
                    if mode is Repetition {
                        w.names
                    } else {
                        names
                    },
                );
            },
            TokenView::Ident { text, span } => {
                lemma_marker_free_walk(
                    tokens,
                    pos + 1,
                    mode,
                    program.push(InstructionView::Ident(IdentView { text, span })),
                    names,
                );
            },
            TokenView::Literal { text, span } => {
                lemma_marker_free_walk(
                    tokens,
                    pos + 1,
                    mode,
                    program.push(literal_instruction(text, span)),
                    names,
                );
            },
            TokenView::Punct { ch, spacing, span } => {
                assert(marker(ch, tokens, pos + 1) == Marker::Absent);
                lemma_marker_free_walk(
                    tokens,
                    pos + 1,
                    mode,
                    program.push(InstructionView::Punct(Punct { ch, spacing, span })),
                    names,
                );
            },
        }
    }
}

} // verus!
