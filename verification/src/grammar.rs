//! What a template means: the program it compiles to, or the error it is
//! rejected with, as functions of its tokens.
//!
//! A template is read from left to right. A token stands for itself, with
//! two exceptions that start at a `#`:
//!
//! * `#name` interpolates the value bound to `name`;
//! * `#( body ) separator *` repeats `body` for each item of the sequences
//!   that `body` interpolates, with `separator` between the passes.
//!
//! A `#` that is followed by anything else stands for itself.

use vstd::prelude::*;
use proc_macro2::Span;
use crate::error::{error_at, error_between, raise_spec, Error, ErrorKind};
use crate::literal::classify_spec;
use crate::program::{add_name, GeneratedView, InstructionView};
use crate::tokens::{Delimiter, IdentView, Punct, TokenView};

verus! {

/// Where in a template a run of tokens stands.
pub enum Mode {
    /// At the top, or in a group outside any repetition.
    Plain,
    /// In the body of a repetition: each interpolated name is recorded, and
    /// a repetition is an error.
    Repetition,
    /// Between the body of a repetition and the `*` that closes it: a
    /// repetition is an error.
    Separator,
}

/// What reading a run of tokens gives: the program, and the names recorded.
pub struct Walk {
    pub program: Seq<InstructionView>,
    pub names: Seq<IdentView>,
}

/// What a punctuation character starts, given the token behind it.
pub enum Marker {
    /// `#name`.
    Scalar(IdentView),
    /// `#( body )`, with the span of the parentheses.
    Repetition { body: Seq<TokenView>, span: Span },
    /// Nothing: the character stands for itself.
    Absent,
}

/// What a punctuation character starts, with what its pattern holds: the
/// name; or the body of the repetition, its span, and the program of its
/// separator.
pub enum PatternView {
    Ident(IdentView),
    Iterator { body: Seq<TokenView>, span: Span, separator: Seq<InstructionView> },
    NotAPlaceholder,
}

/// The span of a token.
pub open spec fn token_span(token: TokenView) -> Span {
    match token {
        TokenView::Group { span, .. } => span,
        TokenView::Ident { span, .. } => span,
        TokenView::Punct { span, .. } => span,
        TokenView::Literal { span, .. } => span,
    }
}

/// What the character `ch` starts when `tokens[pos]` is the token behind it.
pub open spec fn marker(ch: char, tokens: Seq<TokenView>, pos: int) -> Marker {
    if ch == '#' && 0 <= pos < tokens.len() {
        match tokens[pos] {
            TokenView::Ident { text, span } => Marker::Scalar(IdentView { text, span }),
            TokenView::Group { delimiter, stream, span } => if delimiter
                == Delimiter::Parenthesis {
                Marker::Repetition { body: stream, span }
            } else {
                Marker::Absent
            },
            _ => Marker::Absent,
        }
    } else {
        Marker::Absent
    }
}

/// The instruction that rebuilds a literal.
pub open spec fn literal_instruction(text: Seq<char>, span: Span) -> InstructionView {
    InstructionView::Literal { kind: classify_spec(text), text, span }
}

/// The instruction for a repetition with the given names, separator and
/// body. A separator of no instructions is no separator.
pub open spec fn repeat_instruction(
    names: Seq<IdentView>,
    separator: Seq<InstructionView>,
    body: Seq<InstructionView>,
) -> InstructionView {
    InstructionView::Repeat {
        names,
        separator: if separator.len() == 0 {
            None
        } else {
            Some(separator)
        },
        body,
    }
}

/// The token is the punctuation character `ch`.
pub open spec fn is_punct(token: TokenView, ch: char) -> bool {
    token matches TokenView::Punct { ch: c, .. } && c == ch
}

/// The place of the first `*` among the tokens from `tokens[from]` on, or
/// the number of tokens if there is none. A `*` inside a group is part of
/// the group, and not among these.
pub open spec fn closing_star(tokens: Seq<TokenView>, from: int) -> int
    decreases tokens.len() - from,
{
    if from < 0 || from >= tokens.len() {
        tokens.len() as int
    } else if is_punct(tokens[from], '*') {
        from
    } else {
        closing_star(tokens, from + 1)
    }
}

/// The first `*` from a place on stands at that place or behind it, it is
/// a `*` unless it is the end of the tokens, and no `*` stands before it.
pub proof fn lemma_closing_star_bounds(tokens: Seq<TokenView>, from: int)
    requires
        0 <= from <= tokens.len(),
    ensures
        from <= closing_star(tokens, from) <= tokens.len(),
        closing_star(tokens, from) < tokens.len() ==> is_punct(
            tokens[closing_star(tokens, from)],
            '*',
        ),
        forall|k: int| from <= k < closing_star(tokens, from) ==> !is_punct(#[trigger] tokens[k], '*'),
    decreases tokens.len() - from,
{
    if from < tokens.len() && !is_punct(tokens[from], '*') {
        lemma_closing_star_bounds(tokens, from + 1);
    }
}

/// The error for a repetition where none may stand. Its body has the span
/// `span`, its separator starts at `tokens[from]` and its `*` is
/// `tokens[star]`: the error reaches from the body to the last token of
/// the separator.
pub open spec fn nested_error(tokens: Seq<TokenView>, from: int, star: int, span: Span) -> Error {
    error_between(
        span,
        if 0 <= from < star <= tokens.len() {
            token_span(tokens[star - 1])
        } else {
            span
        },
        ErrorKind::NestedRepetition,
    )
}

/// Reads the tokens from `tokens[pos]` up to, and without, `tokens[end]`,
/// as `mode` says, after `program` and `names`. The first thing wrong, from
/// left to right, is the error.
///
/// A group is a run of tokens of its own. In the body of a repetition it
/// belongs to the body; anywhere else, in a separator too, it is read as a
/// template is.
///
/// A repetition reaches to the first `*` behind its body. What stands
/// between the two is its separator, and is read first; then the body is.
pub open spec fn walk(
    tokens: Seq<TokenView>,
    pos: int,
    end: int,
    mode: Mode,
    program: Seq<InstructionView>,
    names: Seq<IdentView>,
) -> Result<Walk, Error>
    decreases tokens, tokens.len() - pos,
{
    if !(0 <= pos < end <= tokens.len()) {
        Ok(Walk { program, names })
    } else {
        match tokens[pos] {
            TokenView::Group { delimiter, stream, span } => {
                let inner = if mode is Repetition {
                    walk(stream, 0, stream.len() as int, Mode::Repetition, Seq::empty(), names)
                } else {
                    walk(stream, 0, stream.len() as int, Mode::Plain, Seq::empty(), Seq::empty())
                };
                match inner {
                    Err(e) => Err(e),
                    Ok(w) => walk(
                        tokens,
                        pos + 1,
                        end,
                        mode,
                        program.push(InstructionView::Group { delimiter, inner: w.program, span }),
                        if mode is Repetition {
                            w.names
                        } else {
                            names
                        },
                    ),
                }
            },
            TokenView::Ident { text, span } => walk(
                tokens,
                pos + 1,
                end,
                mode,
                program.push(InstructionView::Ident(IdentView { text, span })),
                names,
            ),
            TokenView::Literal { text, span } => walk(
                tokens,
                pos + 1,
                end,
                mode,
                program.push(literal_instruction(text, span)),
                names,
            ),
            TokenView::Punct { ch, spacing, span } => match marker(ch, tokens, pos + 1) {
                Marker::Absent => walk(
                    tokens,
                    pos + 1,
                    end,
                    mode,
                    program.push(InstructionView::Punct(Punct { ch, spacing, span })),
                    names,
                ),
                Marker::Scalar(name) => walk(
                    tokens,
                    pos + 2,
                    end,
                    mode,
                    program.push(InstructionView::Interpolate(name)),
                    if mode is Repetition {
                        add_name(names, name)
                    } else {
                        names
                    },
                ),
                Marker::Repetition { body, span: anchor } => {
                    let star = closing_star(tokens, pos + 2);
                    match walk(tokens, pos + 2, star, Mode::Separator, Seq::empty(), Seq::empty()) {
                        Err(e) => Err(e),
                        Ok(separator) => if star >= tokens.len() {
                            Err(error_at(anchor, ErrorKind::UnterminatedRepetition))
                        } else if !(mode is Plain) {
                            Err(nested_error(tokens, pos + 2, star, anchor))
                        } else {
                            match walk(
                                body,
                                0,
                                body.len() as int,
                                Mode::Repetition,
                                Seq::empty(),
                                Seq::empty(),
                            ) {
                                Err(e) => Err(e),
                                Ok(repeated) => if repeated.names.len() == 0 {
                                    Err(error_at(anchor, ErrorKind::EmptyRepetition))
                                } else {
                                    proof {
                                        lemma_closing_star_bounds(tokens, pos + 2);
                                    }
                                    walk(
                                        tokens,
                                        star + 1,
                                        end,
                                        mode,
                                        program.push(
                                            repeat_instruction(
                                                repeated.names,
                                                separator.program,
                                                repeated.program,
                                            ),
                                        ),
                                        names,
                                    )
                                },
                            }
                        },
                    }
                },
            },
        }
    }
}

/// The program of a whole template, or the error it is rejected with.
pub open spec fn parse_spec(tokens: Seq<TokenView>) -> Result<Seq<InstructionView>, Error> {
    match walk(tokens, 0, tokens.len() as int, Mode::Plain, Seq::empty(), Seq::empty()) {
        Ok(w) => Ok(w.program),
        Err(e) => Err(e),
    }
}

/// The program of the body of a repetition with the names it records
/// behind `names`, or the error the body is rejected with.
pub open spec fn body_spec(tokens: Seq<TokenView>, names: Seq<IdentView>) -> Result<Walk, Error> {
    walk(tokens, 0, tokens.len() as int, Mode::Repetition, Seq::empty(), names)
}

/// The program of the separator that starts at `tokens[from]`, behind a
/// body with the span `anchor`, with the place of the first token behind
/// the `*` that closes it; or the error for it: what is wrong in it, or
/// that no `*` closes it.
pub open spec fn separator_spec(tokens: Seq<TokenView>, from: int, anchor: Span) -> Result<
    (Seq<InstructionView>, int),
    Error,
> {
    let star = closing_star(tokens, from);
    match walk(tokens, from, star, Mode::Separator, Seq::empty(), Seq::empty()) {
        Err(e) => Err(e),
        Ok(w) => if star >= tokens.len() {
            Err(error_at(anchor, ErrorKind::UnterminatedRepetition))
        } else {
            Ok((w.program, star + 1))
        },
    }
}

/// What the character `ch` starts when `tokens[pos]` is the token behind
/// it, with the place of the first token behind the whole pattern. For a
/// repetition this reads the separator, up to its `*`.
pub open spec fn detect(ch: char, tokens: Seq<TokenView>, pos: int) -> Result<
    (PatternView, int),
    Error,
> {
    match marker(ch, tokens, pos) {
        Marker::Absent => Ok((PatternView::NotAPlaceholder, pos)),
        Marker::Scalar(name) => Ok((PatternView::Ident(name), pos + 1)),
        Marker::Repetition { body, span } => match separator_spec(tokens, pos + 1, span) {
            Err(e) => Err(e),
            Ok((separator, next)) => Ok((PatternView::Iterator { body, span, separator }, next)),
        },
    }
}

/// The instruction for the repetition of `body`, whose parentheses have the
/// span `span`, with the separator program `separator`.
pub open spec fn expand(body: Seq<TokenView>, span: Span, separator: Seq<InstructionView>) -> Result<
    InstructionView,
    Error,
> {
    match body_spec(body, Seq::empty()) {
        Err(e) => Err(e),
        Ok(repeated) => if repeated.names.len() == 0 {
            Err(error_at(span, ErrorKind::EmptyRepetition))
        } else {
            Ok(repeat_instruction(repeated.names, separator, repeated.program))
        },
    }
}

/// What compiling a template gives: its program in a block, or the
/// diagnostic for its error.
pub open spec fn quote_spec(tokens: Seq<TokenView>) -> GeneratedView {
    match parse_spec(tokens) {
        Ok(program) => GeneratedView::Block(program),
        Err(e) => GeneratedView::Diagnostic(raise_spec(e)),
    }
}

} // verus!
