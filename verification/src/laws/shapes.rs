//! The smallest templates of each form, and what they compile to.

use vstd::prelude::*;
use proc_macro2::Span;
use crate::error::{error_at, error_between, Error, ErrorKind};
use crate::grammar::{
    closing_star, is_punct, lemma_closing_star_bounds, marker, nested_error, parse_spec,
    repeat_instruction, walk, Marker, Mode, Walk,
};
use crate::program::{add_name, has_name, InstructionView};
use crate::tokens::{Delimiter, IdentView, Punct, TokenView};
use crate::laws::plain::{lemma_marker_free_walk, lemma_plain_walk, marker_free};

verus! {

/// `#name` alone compiles to the one instruction that interpolates `name`.
pub proof fn lemma_scalar_template(hash: Punct, name: IdentView)
    requires
        hash.ch == '#',
    ensures
        parse_spec(
            seq![
                TokenView::Punct { ch: hash.ch, spacing: hash.spacing, span: hash.span },
                TokenView::Ident { text: name.text, span: name.span },
            ],
        ) == Ok::<Seq<InstructionView>, Error>(seq![InstructionView::Interpolate(name)]),
{
    let tokens = seq![
        TokenView::Punct { ch: hash.ch, spacing: hash.spacing, span: hash.span },
        TokenView::Ident { text: name.text, span: name.span },
    ];
    let empty = Seq::<InstructionView>::empty();
    let none = Seq::<IdentView>::empty();
    assert(marker('#', tokens, 1) == Marker::Scalar(name));
    assert(walk(tokens, 0, 2, Mode::Plain, empty, none) == walk(
        tokens,
        2,
        2,
        Mode::Plain,
        empty.push(InstructionView::Interpolate(name)),
        none,
    ));
    assert(empty.push(InstructionView::Interpolate(name)) =~= seq![
        InstructionView::Interpolate(name),
    ]);
}

/// A repetition with no `*` behind its body is rejected as unterminated at
/// the span of its body, whatever the body holds, if nothing is wrong with
/// what stands behind the body.
pub proof fn lemma_unterminated_repetition(
    hash: Punct,
    body: Seq<TokenView>,
    span: Span,
    rest: Seq<TokenView>,
)
    requires
        hash.ch == '#',
        marker_free(rest),
        forall|k: int| 0 <= k < rest.len() ==> !is_punct(#[trigger] rest[k], '*'),
    ensures
        parse_spec(
            seq![
                TokenView::Punct { ch: hash.ch, spacing: hash.spacing, span: hash.span },
                TokenView::Group { delimiter: Delimiter::Parenthesis, stream: body, span },
            ] + rest,
        ) == Err::<Seq<InstructionView>, Error>(
            error_at(span, ErrorKind::UnterminatedRepetition),
        ),
{
    let head = seq![
        TokenView::Punct { ch: hash.ch, spacing: hash.spacing, span: hash.span },
        TokenView::Group { delimiter: Delimiter::Parenthesis, stream: body, span },
    ];
    let tokens = head + rest;
    assert(tokens[0] == head[0]);
    assert(tokens[1] == head[1]);
    assert(marker('#', tokens, 1) == Marker::Repetition { body, span });
    lemma_closing_star_bounds(tokens, 2);
    let star = closing_star(tokens, 2);
    if star < tokens.len() {
        assert(tokens[star] == rest[star - 2]);
    }
    lemma_marker_free_walk(tokens, 2, Mode::Separator, Seq::empty(), Seq::empty());
}

/// A repetition whose body holds no `#`, closed at once by its `*`, is
/// rejected as empty at the span of its body.
pub proof fn lemma_empty_repetition(hash: Punct, body: Seq<TokenView>, span: Span, star: Punct)
    requires
        hash.ch == '#',
        star.ch == '*',
        marker_free(body),
    ensures
        parse_spec(
            seq![
                TokenView::Punct { ch: hash.ch, spacing: hash.spacing, span: hash.span },
                TokenView::Group { delimiter: Delimiter::Parenthesis, stream: body, span },
                TokenView::Punct { ch: star.ch, spacing: star.spacing, span: star.span },
            ],
        ) == Err::<Seq<InstructionView>, Error>(error_at(span, ErrorKind::EmptyRepetition)),
{
    let tokens = seq![
        TokenView::Punct { ch: hash.ch, spacing: hash.spacing, span: hash.span },
        TokenView::Group { delimiter: Delimiter::Parenthesis, stream: body, span },
        TokenView::Punct { ch: star.ch, spacing: star.spacing, span: star.span },
    ];
    assert(marker('#', tokens, 1) == Marker::Repetition { body, span });
    assert(closing_star(tokens, 2) == 2);
    assert(walk(tokens, 2, 2, Mode::Separator, Seq::empty(), Seq::empty()) == Ok::<Walk, Error>(
        Walk { program: Seq::empty(), names: Seq::empty() },
    ));
    lemma_plain_walk(body, 0, Mode::Repetition, Seq::empty(), Seq::empty());
}

/// A repetition that stands in the body of another one is rejected as
/// nested. With nothing between its body and its `*`, the error stands at
/// the span of the inner body, whatever that body holds.
pub proof fn lemma_nested_repetition(
    hash: Punct,
    inner_hash: Punct,
    inner_body: Seq<TokenView>,
    inner_span: Span,
    inner_star: Punct,
    span: Span,
    star: Punct,
)
    requires
        hash.ch == '#',
        inner_hash.ch == '#',
        inner_star.ch == '*',
        star.ch == '*',
    ensures
        parse_spec(
            seq![
                TokenView::Punct { ch: hash.ch, spacing: hash.spacing, span: hash.span },
                TokenView::Group {
                    delimiter: Delimiter::Parenthesis,
                    stream: seq![
                        TokenView::Punct {
                            ch: inner_hash.ch,
                            spacing: inner_hash.spacing,
                            span: inner_hash.span,
                        },
                        TokenView::Group {
                            delimiter: Delimiter::Parenthesis,
                            stream: inner_body,
                            span: inner_span,
                        },
                        TokenView::Punct {
                            ch: inner_star.ch,
                            spacing: inner_star.spacing,
                            span: inner_star.span,
                        },
                    ],
                    span,
                },
                TokenView::Punct { ch: star.ch, spacing: star.spacing, span: star.span },
            ],
        ) == Err::<Seq<InstructionView>, Error>(
            error_between(inner_span, inner_span, ErrorKind::NestedRepetition),
        ),
{
    let body = seq![
        TokenView::Punct { ch: inner_hash.ch, spacing: inner_hash.spacing, span: inner_hash.span },
        TokenView::Group {
            delimiter: Delimiter::Parenthesis,
            stream: inner_body,
            span: inner_span,
        },
        TokenView::Punct { ch: inner_star.ch, spacing: inner_star.spacing, span: inner_star.span },
    ];
    let tokens = seq![
        TokenView::Punct { ch: hash.ch, spacing: hash.spacing, span: hash.span },
        TokenView::Group { delimiter: Delimiter::Parenthesis, stream: body, span },
        TokenView::Punct { ch: star.ch, spacing: star.spacing, span: star.span },
    ];
    assert(marker('#', tokens, 1) == Marker::Repetition { body, span });
    assert(closing_star(tokens, 2) == 2);
    assert(walk(tokens, 2, 2, Mode::Separator, Seq::empty(), Seq::empty()) == Ok::<Walk, Error>(
        Walk { program: Seq::empty(), names: Seq::empty() },
    ));
    assert(marker('#', body, 1) == Marker::Repetition { body: inner_body, span: inner_span });
    assert(closing_star(body, 2) == 2);
    assert(walk(body, 2, 2, Mode::Separator, Seq::empty(), Seq::empty()) == Ok::<Walk, Error>(
        Walk { program: Seq::empty(), names: Seq::empty() },
    ));
    assert(walk(body, 0, 3, Mode::Repetition, Seq::empty(), Seq::empty()) == Err::<Walk, Error>(
        nested_error(body, 2, 2, inner_span),
    ));
}

/// `#( #name )*` compiles to one loop over `name` alone, without a
/// separator, whose body is the one instruction that interpolates `name`.
pub proof fn lemma_repetition_of_one_name(
    hash: Punct,
    inner_hash: Punct,
    name: IdentView,
    span: Span,
    star: Punct,
)
    requires
        hash.ch == '#',
        inner_hash.ch == '#',
        star.ch == '*',
    ensures
        parse_spec(
            seq![
                TokenView::Punct { ch: hash.ch, spacing: hash.spacing, span: hash.span },
                TokenView::Group {
                    delimiter: Delimiter::Parenthesis,
                    stream: seq![
                        TokenView::Punct {
                            ch: inner_hash.ch,
                            spacing: inner_hash.spacing,
                            span: inner_hash.span,
                        },
                        TokenView::Ident { text: name.text, span: name.span },
                    ],
                    span,
                },
                TokenView::Punct { ch: star.ch, spacing: star.spacing, span: star.span },
            ],
        ) == Ok::<Seq<InstructionView>, Error>(
            seq![
                InstructionView::Repeat {
                    names: seq![name],
                    separator: None,
                    body: seq![InstructionView::Interpolate(name)],
                },
            ],
        ),
{
    let body = seq![
        TokenView::Punct { ch: inner_hash.ch, spacing: inner_hash.spacing, span: inner_hash.span },
        TokenView::Ident { text: name.text, span: name.span },
    ];
    let tokens = seq![
        TokenView::Punct { ch: hash.ch, spacing: hash.spacing, span: hash.span },
        TokenView::Group { delimiter: Delimiter::Parenthesis, stream: body, span },
        TokenView::Punct { ch: star.ch, spacing: star.spacing, span: star.span },
    ];
    let empty = Seq::<InstructionView>::empty();
    let none = Seq::<IdentView>::empty();
    let interpolate = InstructionView::Interpolate(name);
    let repeat = InstructionView::Repeat {
        names: seq![name],
        separator: None,
        body: seq![interpolate],
    };
    assert(marker('#', tokens, 1) == Marker::Repetition { body, span });
    assert(closing_star(tokens, 2) == 2);
    assert(walk(tokens, 2, 2, Mode::Separator, Seq::empty(), Seq::empty()) == Ok::<Walk, Error>(
        Walk { program: Seq::empty(), names: Seq::empty() },
    ));
    assert(marker('#', body, 1) == Marker::Scalar(name));
    assert(!has_name(none, name.text));
    assert(add_name(none, name) =~= seq![name]);
    assert(empty.push(interpolate) =~= seq![interpolate]);
    assert(walk(body, 0, 2, Mode::Repetition, empty, none) == walk(
        body,
        2,
        2,
        Mode::Repetition,
        seq![interpolate],
        seq![name],
    ));
    assert(repeat_instruction(seq![name], empty, seq![interpolate]) == repeat);
    assert(empty.push(repeat) =~= seq![repeat]);
    assert(walk(tokens, 0, 3, Mode::Plain, empty, none) == walk(
        tokens,
        3,
        3,
        Mode::Plain,
        seq![repeat],
        none,
    ));
}

/// `#( #first #second ) , *` compiles to one loop over `first` and
/// `second`, in that order, whose separator is the one instruction for the
/// punctuation between `)` and `*`, and whose body interpolates both names.
pub proof fn lemma_repetition_with_separator(
    hash: Punct,
    first_hash: Punct,
    first: IdentView,
    second_hash: Punct,
    second: IdentView,
    span: Span,
    comma: Punct,
    star: Punct,
)
    requires
        hash.ch == '#',
        first_hash.ch == '#',
        second_hash.ch == '#',
        first.text != second.text,
        comma.ch != '#',
        comma.ch != '*',
        star.ch == '*',
    ensures
        parse_spec(
            seq![
                TokenView::Punct { ch: hash.ch, spacing: hash.spacing, span: hash.span },
                TokenView::Group {
                    delimiter: Delimiter::Parenthesis,
                    stream: seq![
                        TokenView::Punct {
                            ch: first_hash.ch,
                            spacing: first_hash.spacing,
                            span: first_hash.span,
                        },
                        TokenView::Ident { text: first.text, span: first.span },
                        TokenView::Punct {
                            ch: second_hash.ch,
                            spacing: second_hash.spacing,
                            span: second_hash.span,
                        },
                        TokenView::Ident { text: second.text, span: second.span },
                    ],
                    span,
                },
                TokenView::Punct { ch: comma.ch, spacing: comma.spacing, span: comma.span },
                TokenView::Punct { ch: star.ch, spacing: star.spacing, span: star.span },
            ],
        ) == Ok::<Seq<InstructionView>, Error>(
            seq![
                InstructionView::Repeat {
                    names: seq![first, second],
                    separator: Some(seq![InstructionView::Punct(comma)]),
                    body: seq![
                        InstructionView::Interpolate(first),
                        InstructionView::Interpolate(second),
                    ],
                },
            ],
        ),
{
    let body = seq![
        TokenView::Punct { ch: first_hash.ch, spacing: first_hash.spacing, span: first_hash.span },
        TokenView::Ident { text: first.text, span: first.span },
        TokenView::Punct {
            ch: second_hash.ch,
            spacing: second_hash.spacing,
            span: second_hash.span,
        },
        TokenView::Ident { text: second.text, span: second.span },
    ];
    let tokens = seq![
        TokenView::Punct { ch: hash.ch, spacing: hash.spacing, span: hash.span },
        TokenView::Group { delimiter: Delimiter::Parenthesis, stream: body, span },
        TokenView::Punct { ch: comma.ch, spacing: comma.spacing, span: comma.span },
        TokenView::Punct { ch: star.ch, spacing: star.spacing, span: star.span },
    ];
    let empty = Seq::<InstructionView>::empty();
    let none = Seq::<IdentView>::empty();
    let one = InstructionView::Interpolate(first);
    let two = InstructionView::Interpolate(second);
    let between = InstructionView::Punct(comma);
    let repeat = InstructionView::Repeat {
        names: seq![first, second],
        separator: Some(seq![between]),
        body: seq![one, two],
    };
    assert(marker('#', tokens, 1) == Marker::Repetition { body, span });
    assert(closing_star(tokens, 3) == 3);
    assert(closing_star(tokens, 2) == 3);
    assert(marker(comma.ch, tokens, 3) == Marker::Absent);
    assert(empty.push(between) =~= seq![between]);
    assert(walk(tokens, 2, 3, Mode::Separator, empty, none) == walk(
        tokens,
        3,
        3,
        Mode::Separator,
        seq![between],
        none,
    ));
    assert(marker('#', body, 1) == Marker::Scalar(first));
    assert(marker('#', body, 3) == Marker::Scalar(second));
    assert(!has_name(none, first.text));
    assert(add_name(none, first) =~= seq![first]);
    assert(!has_name(seq![first], second.text));
    assert(add_name(seq![first], second) =~= seq![first, second]);
    assert(empty.push(one) =~= seq![one]);
    assert(seq![one].push(two) =~= seq![one, two]);
    assert(walk(body, 2, 4, Mode::Repetition, seq![one], seq![first]) == walk(
        body,
        4,
        4,
        Mode::Repetition,
        seq![one, two],
        seq![first, second],
    ));
    assert(walk(body, 0, 4, Mode::Repetition, empty, none) == walk(
        body,
        2,
        4,
        Mode::Repetition,
        seq![one],
        seq![first],
    ));
    assert(repeat_instruction(seq![first, second], seq![between], seq![one, two]) == repeat);
    assert(empty.push(repeat) =~= seq![repeat]);
    assert(walk(tokens, 0, 4, Mode::Plain, empty, none) == walk(
        tokens,
        4,
        4,
        Mode::Plain,
        seq![repeat],
        none,
    ));
}

} // verus!
