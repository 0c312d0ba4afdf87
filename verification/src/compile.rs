//! The compiler: one pass over a template, from left to right, that emits
//! the program which rebuilds it.

use vstd::prelude::*;
use proc_macro2::Span;
use crate::error::{Error, ErrorKind};
use crate::grammar::{
    body_spec, closing_star, detect, expand, lemma_closing_star_bounds, literal_instruction,
    nested_error, parse_spec, quote_spec, separator_spec, token_span, walk, Mode, PatternView,
};
use crate::literal::classify;
use crate::laws::programs::lemma_program_well_formed;
use crate::program::{
    add_name, generate_quote_header, lemma_names_view_push, lemma_program_view_push, names_view,
    program_view, well_formed, Block, Generated, GeneratedView, Instruction, InstructionView,
};
use crate::tokens::{stream_view, Delimiter, Group, Ident, IdentView, Literal, Punct, TokenTree};

verus! {

/// What a punctuation character starts.
#[derive(Debug)]
pub enum InterpolationPattern<'a> {
    /// `#ident`
    Ident(&'a Ident),
    /// `#( group ) separator *`, with the program of the separator
    Iterator(&'a Group, Vec<Instruction>),
    /// Not an interpolation pattern
    NotAPlaceholder,
}

impl<'a> View for InterpolationPattern<'a> {
    type V = PatternView;

    open spec fn view(&self) -> PatternView {
        match self {
            InterpolationPattern::Ident(ident) => PatternView::Ident(ident@),
            InterpolationPattern::Iterator(group, separator) => PatternView::Iterator {
                body: stream_view(group.stream@),
                span: group.span,
                separator: program_view(separator@),
            },
            InterpolationPattern::NotAPlaceholder => PatternView::NotAPlaceholder,
        }
    }
}

/// The span of a token.
pub fn span_of(token: &TokenTree) -> (span: Span)
    ensures
        span == token_span(token@),
{
    match token {
        TokenTree::Group(group) => group.span,
        TokenTree::Ident(ident) => ident.span,
        TokenTree::Punct(punct) => punct.span,
        TokenTree::Literal(literal) => literal.span,
    }
}

/// Emits the instruction that appends the identifier.
pub fn parse_ident(stream: &mut Vec<Instruction>, ident: &Ident)
    ensures
        program_view(final(stream)@) == program_view(old(stream)@).push(
            InstructionView::Ident(ident@),
        ),
{
    let instruction = Instruction::Ident(Ident { text: ident.text.clone(), span: ident.span });
    proof {
        lemma_program_view_push(stream@, instruction);
    }
    stream.push(instruction);
}

/// Emits the instruction that appends the punctuation character, with its
/// spacing.
pub fn parse_punct(stream: &mut Vec<Instruction>, punct: &Punct)
    ensures
        program_view(final(stream)@) == program_view(old(stream)@).push(
            InstructionView::Punct(*punct),
        ),
{
    let instruction = Instruction::Punct(*punct);
    proof {
        lemma_program_view_push(stream@, instruction);
    }
    stream.push(instruction);
}

/// Emits the instruction that rebuilds the literal: as written where its
/// text ends in a type suffix, a quote or a `#`, from its value otherwise.
pub fn parse_literal(stream: &mut Vec<Instruction>, lit: &Literal)
    ensures
        program_view(final(stream)@) == program_view(old(stream)@).push(
            literal_instruction(lit.text@, lit.span),
        ),
{
    let kind = classify(lit.text.as_str());
    let instruction = Instruction::Literal {
        kind,
        literal: Literal { text: lit.text.clone(), span: lit.span },
    };
    proof {
        lemma_program_view_push(stream@, instruction);
    }
    stream.push(instruction);
}

/// Emits the instruction that appends what `inner` yields as a group.
pub fn parse_group_inner(
    stream: &mut Vec<Instruction>,
    inner: Block,
    delimiter: Delimiter,
    group_span: Span,
)
    ensures
        program_view(final(stream)@) == program_view(old(stream)@).push(
            InstructionView::Group { delimiter, inner: inner@, span: group_span },
        ),
{
    let instruction = Instruction::Group { delimiter, inner, span: group_span };
    proof {
        lemma_program_view_push(stream@, instruction);
    }
    stream.push(instruction);
}

/// Emits the instruction that interpolates the value bound to `ident`.
pub fn interpolate_to_tokens_ident(stream: &mut Vec<Instruction>, ident: &Ident)
    ensures
        program_view(final(stream)@) == program_view(old(stream)@).push(
            InstructionView::Interpolate(ident@),
        ),
{
    let instruction = Instruction::Interpolate(
        Ident { text: ident.text.clone(), span: ident.span },
    );
    proof {
        lemma_program_view_push(stream@, instruction);
    }
    stream.push(instruction);
}

/// Records `ident` among the names a repetition runs over, unless a name
/// of the same spelling is there already.
pub fn record_name(iter_idents: &mut Vec<Ident>, ident: &Ident)
    ensures
        names_view(final(iter_idents)@) == add_name(names_view(old(iter_idents)@), ident@),
        old(iter_idents)@.is_prefix_of(final(iter_idents)@),
{
    let mut i: usize = 0;
    while i < iter_idents.len()
        invariant
            i <= iter_idents.len(),
            iter_idents@ == old(iter_idents)@,
            forall|j: int| 0 <= j < i ==> (#[trigger] names_view(iter_idents@)[j]).text != ident.text@,
        decreases iter_idents.len() - i,
    {
        if iter_idents[i].text == ident.text {
            assert(names_view(iter_idents@)[i as int].text == ident@.text);
            return ;
        }
        i += 1;
    }
    let name = Ident { text: ident.text.clone(), span: ident.span };
    proof {
        lemma_names_view_push(iter_idents@, name);
    }
    iter_idents.push(name);
}

/// The error for a repetition where none may stand: from the span of its
/// body to the last token of its separator, which starts at `input[from]`
/// and is closed by `input[star]`. With no token between the two, the
/// error ends where it starts.
pub fn nested_repetition(input: &Vec<TokenTree>, from: usize, star: usize, span: Span) -> (error:
    Error)
    ensures
        error == nested_error(stream_view(input@), from as int, star as int, span),
{
    let end = if from < star && star <= input.len() {
        span_of(&input[star - 1])
    } else {
        span
    };
    Error::new(span, ErrorKind::NestedRepetition).end_span(end)
}

/// Compiles a group outside any repetition: its tokens become a program of
/// their own, and the instruction that appends the group is emitted. On an
/// error nothing is emitted.
pub fn parse_group(stream: &mut Vec<Instruction>, group: &Group) -> (result: Result<(), Error>)
    ensures
        match parse_spec(stream_view(group.stream@)) {
            Ok(inner) => result is Ok && program_view(final(stream)@) == program_view(
                old(stream)@,
            ).push(
                InstructionView::Group { delimiter: group.delimiter, inner, span: group.span },
            ),
            Err(e) => result == Err::<(), Error>(e) && final(stream)@ == old(stream)@,
        },
    decreases group, 0int,
{
    let inner = match parse_token_stream(&group.stream) {
        Ok(inner) => inner,
        Err(e) => {
            return Err(e);
        },
    };
    let inner = generate_quote_header(inner);
    parse_group_inner(stream, inner, group.delimiter, group.span);
    Ok(())
}

/// Compiles a group in the body of a repetition: as `parse_group` does,
/// but the names that the group interpolates are recorded, and a repetition
/// in it is an error. Names are only ever added.
pub fn parse_group_in_iterator_pattern(
    stream: &mut Vec<Instruction>,
    group: &Group,
    iter_idents: &mut Vec<Ident>,
) -> (result: Result<(), Error>)
    ensures
        match body_spec(stream_view(group.stream@), names_view(old(iter_idents)@)) {
            Ok(w) => result is Ok && program_view(final(stream)@) == program_view(
                old(stream)@,
            ).push(
                InstructionView::Group {
                    delimiter: group.delimiter,
                    inner: w.program,
                    span: group.span,
                },
            ) && names_view(final(iter_idents)@) == w.names,
            Err(e) => result == Err::<(), Error>(e) && final(stream)@ == old(stream)@,
        },
        old(iter_idents)@.is_prefix_of(final(iter_idents)@),
    decreases group, 0int,
{
    let inner = match parse_token_stream_in_iterator_pattern(&group.stream, iter_idents) {
        Ok(inner) => inner,
        Err(e) => {
            return Err(e);
        },
    };
    let inner = generate_quote_header(inner);
    parse_group_inner(stream, inner, group.delimiter, group.span);
    Ok(())
}

/// Decides what the character `punct` starts, `input[*pos]` being the token
/// behind it, and moves `pos` behind the pattern: one token on for `#name`,
/// behind the closing `*` for a repetition, whose separator is compiled on
/// the way, and not at all where the character stands for itself.
pub fn interpolation_pattern_type<'a>(
    punct: &Punct,
    input: &'a Vec<TokenTree>,
    pos: &mut usize,
) -> (result: Result<InterpolationPattern<'a>, Error>)
    requires
        *old(pos) <= input.len(),
    ensures
        match detect(punct.ch, stream_view(input@), *old(pos) as int) {
            Ok((pattern, next)) => result matches Ok(found) && found@ == pattern && *final(pos)
                == next && (found matches InterpolationPattern::Iterator(group, _) ==> *old(pos)
                < input.len() && input@[*old(pos) as int] == TokenTree::Group(*group)),
            Err(e) => result matches Err(err) && err == e,
        },
        *old(pos) <= *final(pos) <= input.len(),
        result matches Ok(InterpolationPattern::Iterator(_, _)) ==> *old(pos) + 1 < *final(pos),
    decreases input, input.len() - *old(pos),
{
    if punct.ch != '#' || *pos >= input.len() {
        return Ok(InterpolationPattern::NotAPlaceholder);
    }
    match &input[*pos] {
        TokenTree::Ident(ident) => {
            *pos = *pos + 1;
            Ok(InterpolationPattern::Ident(ident))
        },
        TokenTree::Group(group) => {
            match group.delimiter {
                Delimiter::Parenthesis => {
                    let mut at: usize = *pos + 1;
                    let parsed = parse_separator(input, &mut at, group.span);
                    *pos = at;
                    match parsed {
                        Ok(separator) => Ok(InterpolationPattern::Iterator(group, separator)),
                        Err(e) => Err(e),
                    }
                },
                _ => Ok(InterpolationPattern::NotAPlaceholder),
            }
        },
        _ => Ok(InterpolationPattern::NotAPlaceholder),
    }
}

/// Emits the loop for the repetition of `group`, with the program of its
/// separator: the tokens of `group` are compiled as the body, and the names
/// they interpolate are what the loop runs over. A body that interpolates
/// no name is an error. On an error nothing is emitted.
pub fn interpolate_iterator_group(
    stream: &mut Vec<Instruction>,
    group: &Group,
    separator: Vec<Instruction>,
) -> (result: Result<(), Error>)
    ensures
        match expand(stream_view(group.stream@), group.span, program_view(separator@)) {
            Ok(instruction) => result is Ok && program_view(final(stream)@) == program_view(
                old(stream)@,
            ).push(instruction),
            Err(e) => result == Err::<(), Error>(e) && final(stream)@ == old(stream)@,
        },
    decreases group, 0int,
{
    let mut iter_idents: Vec<Ident> = Vec::new();
    assert(names_view(iter_idents@) =~= Seq::<IdentView>::empty());
    let output = match parse_token_stream_in_iterator_pattern(&group.stream, &mut iter_idents) {
        Ok(output) => output,
        Err(e) => {
            return Err(e);
        },
    };
    if iter_idents.len() == 0 {
        return Err(Error::new(group.span, ErrorKind::EmptyRepetition));
    }
    let separator = if separator.len() == 0 {
        None
    } else {
        Some(separator)
    };
    let instruction = Instruction::Repeat { names: iter_idents, separator, body: output };
    proof {
        lemma_program_view_push(stream@, instruction);
    }
    stream.push(instruction);
    Ok(())
}

/// Compiles a run of tokens outside any repetition. The program that comes
/// back is well formed.
pub fn parse_token_stream(input: &Vec<TokenTree>) -> (result: Result<Vec<Instruction>, Error>)
    ensures
        match parse_spec(stream_view(input@)) {
            Ok(program) => result matches Ok(output) && program_view(output@) == program,
            Err(e) => result matches Err(err) && err == e,
        },
        result matches Ok(output) ==> well_formed(program_view(output@)),
    decreases input, input.len() + 1,
{
    proof {
        lemma_program_well_formed(stream_view(input@));
    }
    let ghost tokens = stream_view(input@);
    let mut output: Vec<Instruction> = Vec::new();
    assert(program_view(output@) =~= Seq::<InstructionView>::empty());
    let mut pos: usize = 0;
    while pos < input.len()
        invariant
            tokens == stream_view(input@),
            pos <= input.len(),
            walk(tokens, 0, tokens.len() as int, Mode::Plain, Seq::empty(), Seq::empty()) == walk(
                tokens,
                pos as int,
                tokens.len() as int,
                Mode::Plain,
                program_view(output@),
                Seq::empty(),
            ),
        decreases input.len() - pos,
    {
        let token = &input[pos];
        assert(tokens[pos as int] == token@);
        pos = pos + 1;
        match token {
            TokenTree::Group(group) => {
                match parse_group(&mut output, group) {
                    Ok(()) => {},
                    Err(e) => {
                        return Err(e);
                    },
                }
            },
            TokenTree::Ident(ident) => parse_ident(&mut output, ident),
            TokenTree::Literal(lit) => parse_literal(&mut output, lit),
            TokenTree::Punct(punct) => {
                let ghost before = pos;
                match interpolation_pattern_type(punct, input, &mut pos) {
                    Err(e) => {
                        return Err(e);
                    },
                    Ok(InterpolationPattern::Ident(ident)) => {
                        interpolate_to_tokens_ident(&mut output, ident)
                    },
                    Ok(InterpolationPattern::Iterator(group, separator)) => {
                        assert(tokens[before as int] == input@[before as int]@);
                        match interpolate_iterator_group(&mut output, group, separator) {
                            Ok(()) => {},
                            Err(e) => {
                                return Err(e);
                            },
                        }
                    },
                    Ok(InterpolationPattern::NotAPlaceholder) => {
                        parse_punct(&mut output, punct);
                    },
                }
            },
        }
    }
    Ok(output)
}

/// Compiles the body of a repetition: as `parse_token_stream` does, but
/// each interpolated name is recorded in `iter_idents`, once and in the
/// order of its first use, and a repetition is an error. Names are only
/// ever added.
pub fn parse_token_stream_in_iterator_pattern(
    input: &Vec<TokenTree>,
    iter_idents: &mut Vec<Ident>,
) -> (result: Result<Vec<Instruction>, Error>)
    ensures
        match body_spec(stream_view(input@), names_view(old(iter_idents)@)) {
            Ok(w) => result matches Ok(output) && program_view(output@) == w.program
                && names_view(final(iter_idents)@) == w.names,
            Err(e) => result matches Err(err) && err == e,
        },
        old(iter_idents)@.is_prefix_of(final(iter_idents)@),
    decreases input, input.len() + 1,
{
    let ghost tokens = stream_view(input@);
    let ghost given = names_view(iter_idents@);
    let mut output: Vec<Instruction> = Vec::new();
    assert(program_view(output@) =~= Seq::<InstructionView>::empty());
    let mut pos: usize = 0;
    while pos < input.len()
        invariant
            tokens == stream_view(input@),
            given == names_view(old(iter_idents)@),
            pos <= input.len(),
            old(iter_idents)@.is_prefix_of(iter_idents@),
            walk(tokens, 0, tokens.len() as int, Mode::Repetition, Seq::empty(), given) == walk(
                tokens,
                pos as int,
                tokens.len() as int,
                Mode::Repetition,
                program_view(output@),
                names_view(iter_idents@),
            ),
        decreases input.len() - pos,
    {
        let token = &input[pos];
        assert(tokens[pos as int] == token@);
        pos = pos + 1;
        match token {
            TokenTree::Group(group) => {
                match parse_group_in_iterator_pattern(&mut output, group, iter_idents) {
                    Ok(()) => {},
                    Err(e) => {
                        return Err(e);
                    },
                }
            },
            TokenTree::Ident(ident) => parse_ident(&mut output, ident),
            TokenTree::Literal(lit) => parse_literal(&mut output, lit),
            TokenTree::Punct(punct) => {
                let before = pos;
                match interpolation_pattern_type(punct, input, &mut pos) {
                    Err(e) => {
                        return Err(e);
                    },
                    Ok(InterpolationPattern::Ident(ident)) => {
                        interpolate_to_tokens_ident(&mut output, ident);
                        record_name(iter_idents, ident);
                    },
                    Ok(InterpolationPattern::Iterator(group, _)) => {
                        return Err(nested_repetition(input, before + 1, pos - 1, group.span));
                    },
                    Ok(InterpolationPattern::NotAPlaceholder) => {
                        parse_punct(&mut output, punct);
                    },
                }
            },
        }
    }
    Ok(output)
}

/// Compiles the separator of the repetition whose body has the span
/// `iterators_span`: the tokens from `input[*pos]` up to the first `*`,
/// which closes the repetition. `pos` is moved behind that `*`. A
/// repetition in the separator is an error, and so is a separator that no
/// `*` closes.
pub fn parse_separator(input: &Vec<TokenTree>, pos: &mut usize, iterators_span: Span) -> (result:
    Result<Vec<Instruction>, Error>)
    requires
        *old(pos) <= input.len(),
    ensures
        match separator_spec(stream_view(input@), *old(pos) as int, iterators_span) {
            Ok((program, next)) => result matches Ok(output) && program_view(output@) == program
                && *final(pos) == next,
            Err(e) => result matches Err(err) && err == e,
        },
        *old(pos) <= *final(pos) <= input.len(),
        result is Ok ==> *old(pos) < *final(pos),
    decreases input, input.len() - *old(pos),
{
    let ghost tokens = stream_view(input@);
    let ghost star = closing_star(tokens, *pos as int);
    proof {
        lemma_closing_star_bounds(tokens, *pos as int);
    }
    let mut output: Vec<Instruction> = Vec::new();
    assert(program_view(output@) =~= Seq::<InstructionView>::empty());
    let mut at: usize = *pos;
    while at < input.len()
        invariant
            tokens == stream_view(input@),
            star == closing_star(tokens, *old(pos) as int),
            star == closing_star(tokens, at as int),
            *old(pos) <= at <= star <= input.len(),
            *pos == *old(pos),
            walk(tokens, *old(pos) as int, star, Mode::Separator, Seq::empty(), Seq::empty())
                == walk(
                tokens,
                at as int,
                star,
                Mode::Separator,
                program_view(output@),
                Seq::empty(),
            ),
        decreases input.len() - at,
    {
        let token = &input[at];
        assert(tokens[at as int] == token@);
        proof {
            lemma_closing_star_bounds(tokens, at + 1);
            if at + 1 < tokens.len() {
                lemma_closing_star_bounds(tokens, at + 2);
            }
        }
        at = at + 1;
        match token {
            TokenTree::Group(group) => {
                match parse_group(&mut output, group) {
                    Ok(()) => {},
                    Err(e) => {
                        *pos = at;
                        return Err(e);
                    },
                }
            },
            TokenTree::Ident(ident) => parse_ident(&mut output, ident),
            TokenTree::Literal(lit) => parse_literal(&mut output, lit),
            TokenTree::Punct(punct) => {
                if punct.ch == '*' {
                    *pos = at;
                    return Ok(output);
                }
                let before = at;
                match interpolation_pattern_type(punct, input, &mut at) {
                    Err(e) => {
                        *pos = at;
                        return Err(e);
                    },
                    Ok(InterpolationPattern::Ident(ident)) => {
                        interpolate_to_tokens_ident(&mut output, ident)
                    },
                    Ok(InterpolationPattern::Iterator(group, _)) => {
                        *pos = at;
                        return Err(nested_repetition(input, before + 1, at - 1, group.span));
                    },
                    Ok(InterpolationPattern::NotAPlaceholder) => {
                        parse_punct(&mut output, punct);
                    },
                }
            },
        }
    }
    *pos = at;
    Err(Error::new(iterators_span, ErrorKind::UnterminatedRepetition))
}

/// Compiles a template: the block that rebuilds its tokens, which is well
/// formed, or the diagnostic for the first thing wrong with it.
pub fn quote(input: Vec<TokenTree>) -> (output: Generated)
    ensures
        output@ == quote_spec(stream_view(input@)),
        output@ matches GeneratedView::Block(program) ==> well_formed(program),
{
    match parse_token_stream(&input) {
        Ok(output) => Generated::Block(generate_quote_header(output)),
        Err(err) => Generated::Diagnostic(err.raise()),
    }
}

} // verus!
