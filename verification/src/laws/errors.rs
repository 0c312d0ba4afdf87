//! Where the errors point.

use vstd::prelude::*;
use proc_macro2::Span;
use crate::error::{Error, ErrorKind};
use crate::grammar::{
    closing_star, is_punct, lemma_closing_star_bounds, literal_instruction, marker, parse_spec,
    repeat_instruction, walk, Marker, Mode,
};
use crate::program::{add_name, InstructionView};
use crate::tokens::{Delimiter, IdentView, Punct, TokenView};

verus! {

/// `span` is the span of the body of a repetition in the tokens: of a
/// group in parentheses right behind a `#`, at any depth.
pub open spec fn is_repetition_span(tokens: Seq<TokenView>, span: Span) -> bool
    decreases tokens,
{
    exists|i: int|
        0 <= i < tokens.len() && match #[trigger] tokens[i] {
            TokenView::Group { delimiter, stream, span: s } => (delimiter == Delimiter::Parenthesis
                && s == span && i > 0 && is_punct(tokens[i - 1], '#')) || is_repetition_span(
                stream,
                span,
            ),
            _ => false,
        }
}

/// The error is located in the tokens: it starts at the body of a
/// repetition in them. An error for a nested repetition has an end, and no
/// other error has one.
pub open spec fn error_located(tokens: Seq<TokenView>, error: Error) -> bool {
    &&& is_repetition_span(tokens, error.span_s)
    &&& error.span_e is Some <==> error.kind == ErrorKind::NestedRepetition
}

/// Every error is located in the template it rejects: see `error_located`.
pub proof fn lemma_walk_error_located(
    tokens: Seq<TokenView>,
    pos: int,
    end: int,
    mode: Mode,
    program: Seq<InstructionView>,
    names: Seq<IdentView>,
)
    ensures
        walk(tokens, pos, end, mode, program, names) matches Err(e) ==> error_located(tokens, e),
    decreases tokens, tokens.len() - pos,
{
    if 0 <= pos < end <= tokens.len() {
        match tokens[pos] {
            TokenView::Group { delimiter, stream, span } => {
                let inner_mode = if mode is Repetition {
                    Mode::Repetition
                } else {
                    Mode::Plain
                };
                let inner_names = if mode is Repetition {
                    names
                } else {
                    Seq::empty()
                };
                lemma_walk_error_located(
                    stream,
                    0,
                    stream.len() as int,
                    inner_mode,
                    Seq::empty(),
                    inner_names,
                );
                match walk(stream, 0, stream.len() as int, inner_mode, Seq::empty(), inner_names) {
                    Err(e) => {
                        assert(is_repetition_span(stream, e.span_s));
                    },
                    Ok(w) => {
                        lemma_walk_error_located(
                            tokens,
                            pos + 1,
                            end,
                            mode,
                            program.push(
                                InstructionView::Group { delimiter, inner: w.program, span },
                            ),
                            if mode is Repetition {
                                w.names
                            } else {
                                names
                            },
                        );
                    },
                }
            },
            TokenView::Ident { text, span } => {
                lemma_walk_error_located(
                    tokens,
                    pos + 1,
                    end,
                    mode,
                    program.push(InstructionView::Ident(IdentView { text, span })),
                    names,
                );
            },
            TokenView::Literal { text, span } => {
                lemma_walk_error_located(
                    tokens,
                    pos + 1,
                    end,
                    mode,
                    program.push(literal_instruction(text, span)),
                    names,
                );
            },
            TokenView::Punct { ch, spacing, span } => {
                match marker(ch, tokens, pos + 1) {
                    Marker::Absent => {
                        lemma_walk_error_located(
                            tokens,
                            pos + 1,
                            end,
                            mode,
                            program.push(InstructionView::Punct(Punct { ch, spacing, span })),
                            names,
                        );
                    },
                    Marker::Scalar(name) => {
                        lemma_walk_error_located(
                            tokens,
                            pos + 2,
                            end,
                            mode,
                            program.push(InstructionView::Interpolate(name)),
                            if mode is Repetition {
                                add_name(names, name)
                            } else {
                                names
                            },
                        );
                    },
                    Marker::Repetition { body, span: anchor } => {
                        let star = closing_star(tokens, pos + 2);
                        lemma_closing_star_bounds(tokens, pos + 2);
                        assert(is_punct(tokens[pos + 1 - 1], '#'));
                        assert(is_repetition_span(tokens, anchor));
                        lemma_walk_error_located(
                            tokens,
                            pos + 2,
                            star,
                            Mode::Separator,
                            Seq::empty(),
                            Seq::empty(),
                        );
                        lemma_walk_error_located(
                            body,
                            0,
                            body.len() as int,
                            Mode::Repetition,
                            Seq::empty(),
                            Seq::empty(),
                        );
                        let separator = walk(
                            tokens,
                            pos + 2,
                            star,
                            Mode::Separator,
                            Seq::empty(),
                            Seq::empty(),
                        );
                        let repeated = walk(
                            body,
                            0,
                            body.len() as int,
                            Mode::Repetition,
                            Seq::empty(),
                            Seq::empty(),
                        );
                        if repeated is Err {
                            let e = repeated->Err_0;
                            assert(is_repetition_span(body, e.span_s));
                            assert(is_repetition_span(tokens, e.span_s));
                        }
                        if mode is Plain && separator is Ok && repeated is Ok && star
                            < tokens.len() {
                            lemma_walk_error_located(
                                tokens,
                                star + 1,
                                end,
                                mode,
                                program.push(
                                    repeat_instruction(
                                        repeated->Ok_0.names,
                                        separator->Ok_0.program,
                                        repeated->Ok_0.program,
                                    ),
                                ),
                                names,
                            );
                        }
                    },
                }
            },
        }
    }
}

/// The error that a template is rejected with is located in the template:
/// see `error_located`.
pub proof fn lemma_error_located(tokens: Seq<TokenView>)
    ensures
        parse_spec(tokens) matches Err(e) ==> error_located(tokens, e),
{
    lemma_walk_error_located(
        tokens,
        0,
        tokens.len() as int,
        Mode::Plain,
        Seq::empty(),
        Seq::empty(),
    );
}

} // verus!
