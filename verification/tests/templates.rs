use proc_macro2::Span;
use proc_quote_impl::compile::{
    interpolate_iterator_group, interpolate_to_tokens_ident, interpolation_pattern_type,
    nested_repetition, parse_group, parse_group_in_iterator_pattern, parse_group_inner,
    parse_ident, parse_literal, parse_punct, parse_separator, parse_token_stream,
    parse_token_stream_in_iterator_pattern, record_name, span_of, InterpolationPattern,
};
use proc_quote_impl::error::{Error, ErrorKind};
use proc_quote_impl::literal::LiteralKind;
use proc_quote_impl::program::{generate_quote_header, Block, Diagnostic, Generated, Instruction};
use proc_quote_impl::quote;
use proc_quote_impl::tokens::{Delimiter, Group, Ident, Literal, Punct, Spacing, TokenTree};

fn convert(stream: proc_macro2::TokenStream) -> Vec<TokenTree> {
    let mut out = Vec::new();
    for tree in stream {
        out.push(match tree {
            proc_macro2::TokenTree::Group(g) => TokenTree::Group(Group {
                delimiter: match g.delimiter() {
                    proc_macro2::Delimiter::Parenthesis => Delimiter::Parenthesis,
                    proc_macro2::Delimiter::Brace => Delimiter::Brace,
                    proc_macro2::Delimiter::Bracket => Delimiter::Bracket,
                    proc_macro2::Delimiter::None => Delimiter::Invisible,
                },
                stream: convert(g.stream()),
                span: g.span(),
            }),
            proc_macro2::TokenTree::Ident(i) => {
                TokenTree::Ident(Ident { text: i.to_string(), span: i.span() })
            }
            proc_macro2::TokenTree::Punct(p) => TokenTree::Punct(Punct {
                ch: p.as_char(),
                spacing: match p.spacing() {
                    proc_macro2::Spacing::Alone => Spacing::Alone,
                    proc_macro2::Spacing::Joint => Spacing::Joint,
                },
                span: p.span(),
            }),
            proc_macro2::TokenTree::Literal(l) => {
                TokenTree::Literal(Literal { text: l.to_string(), span: l.span() })
            }
        });
    }
    out
}

/// The tokens of `source`, each with the span it has there.
fn lex(source: &str) -> Vec<TokenTree> {
    convert(source.parse::<proc_macro2::TokenStream>().unwrap())
}

/// Where a span starts and ends in its line.
fn at(span: Span) -> String {
    format!("{}..{}", span.start().column, span.end().column)
}

fn show_names(names: &[Ident]) -> String {
    let shown: Vec<String> = names.iter().map(|n| format!("{}@{}", n.text, at(n.span))).collect();
    shown.join(",")
}

fn show(program: &[Instruction]) -> String {
    let shown: Vec<String> = program.iter().map(show_one).collect();
    shown.join(" ")
}

fn show_one(instruction: &Instruction) -> String {
    match instruction {
        Instruction::Ident(ident) => format!("ident({})@{}", ident.text, at(ident.span)),
        Instruction::Punct(punct) => format!(
            "punct({},{:?})@{}",
            punct.ch,
            punct.spacing,
            at(punct.span)
        ),
        Instruction::Literal { kind, literal } => {
            format!("lit({:?},{})@{}", kind, literal.text, at(literal.span))
        }
        Instruction::Group { delimiter, inner, span } => {
            format!("group({:?})@{}[{}]", delimiter, at(*span), show(&inner.instructions))
        }
        Instruction::Interpolate(ident) => format!("value({})@{}", ident.text, at(ident.span)),
        Instruction::Repeat { names, separator, body } => match separator {
            Some(separator) => format!(
                "repeat({})sep[{}]body[{}]",
                show_names(names),
                show(separator),
                show(body)
            ),
            None => format!("repeat({})body[{}]", show_names(names), show(body)),
        },
    }
}

fn show_generated(generated: &Generated) -> String {
    match generated {
        Generated::Block(block) => format!("block[{}]", show(&block.instructions)),
        Generated::Diagnostic(diagnostic) => show_diagnostic(diagnostic),
    }
}

fn show_diagnostic(diagnostic: &Diagnostic) -> String {
    format!(
        "error({})@{} end@{}",
        diagnostic.message,
        at(diagnostic.span),
        at(diagnostic.end)
    )
}

fn show_error(error: &Error) -> String {
    match error.span_e {
        Some(end) => format!("{:?}@{} end@{}", error.kind, at(error.span_s), at(end)),
        None => format!("{:?}@{}", error.kind, at(error.span_s)),
    }
}

fn show_result(result: &Result<Vec<Instruction>, Error>) -> String {
    match result {
        Ok(program) => format!("ok[{}]", show(program)),
        Err(error) => show_error(error),
    }
}

fn compile(source: &str) -> String {
    show_generated(&quote(lex(source)))
}

const EMPTY: &str = "Expected at least one iterator inside pattern.";
const NESTED: &str = "Nested iterator patterns not supported.";
const UNTERMINATED: &str = "Iterating interpolation does not have `*` symbol.";

#[test]
fn empty_template_gives_empty_block() {
    assert_eq!(compile(""), "block[]");
}

#[test]
fn plain_template_is_rebuilt_token_by_token() {
    assert_eq!(
        compile("a + b"),
        "block[ident(a)@0..1 punct(+,Alone)@2..3 ident(b)@4..5]"
    );
}

#[test]
fn plain_template_keeps_spacing() {
    assert_eq!(
        compile("a >>= b"),
        "block[ident(a)@0..1 punct(>,Joint)@2..3 punct(>,Joint)@3..4 punct(=,Alone)@4..5 \
         ident(b)@6..7]"
    );
    assert_eq!(
        compile("x > > y"),
        "block[ident(x)@0..1 punct(>,Alone)@2..3 punct(>,Alone)@4..5 ident(y)@6..7]"
    );
}

#[test]
fn plain_template_keeps_delimiters_and_nesting() {
    assert_eq!(
        compile("f(a, [b]) {c}"),
        "block[ident(f)@0..1 group(Parenthesis)@1..9[ident(a)@2..3 punct(,,Alone)@3..4 \
         group(Bracket)@5..8[ident(b)@6..7]] group(Brace)@10..13[ident(c)@11..12]]"
    );
}

#[test]
fn plain_template_classifies_literals() {
    assert_eq!(
        compile("5 9999999999 18446744073709551615 3.14 1u8 \"s\" 'c'"),
        "block[lit(Int32(5),5)@0..1 lit(Int64(9999999999),9999999999)@2..12 \
         lit(UInt64(18446744073709551615),18446744073709551615)@13..33 lit(Float,3.14)@34..38 \
         lit(Verbatim,1u8)@39..42 lit(Verbatim,\"s\")@43..46 lit(Verbatim,'c')@47..50]"
    );
}

#[test]
fn verbatim_literal_keeps_its_text() {
    for text in ["1u8", "2.5f32", "\"a \\\"quoted\\\" string\"", "'x'", "r#\"raw\"#", "b\"bytes\""] {
        let tokens = lex(text);
        assert_eq!(tokens.len(), 1);
        match quote(tokens) {
            Generated::Block(block) => {
                assert_eq!(block.instructions.len(), 1);
                match &block.instructions[0] {
                    Instruction::Literal { kind, literal } => {
                        assert_eq!(*kind, LiteralKind::Verbatim);
                        assert_eq!(literal.text, text);
                        assert_eq!(literal.text.as_bytes(), text.as_bytes());
                    }
                    other => panic!("not a literal: {:?}", other),
                }
            }
            other => panic!("not a block: {:?}", other),
        }
    }
}

#[test]
fn invisible_group_is_kept() {
    let span = Span::call_site();
    let tokens = vec![TokenTree::Group(Group {
        delimiter: Delimiter::Invisible,
        stream: vec![TokenTree::Ident(Ident { text: String::from("a"), span })],
        span,
    })];
    assert_eq!(
        show_generated(&quote(tokens)),
        "block[group(Invisible)@0..0[ident(a)@0..0]]"
    );
}

#[test]
fn scalar_substitution() {
    assert_eq!(compile("# x"), "block[value(x)@2..3]");
    assert_eq!(compile("#x"), "block[value(x)@1..2]");
}

#[test]
fn scalar_substitution_among_tokens() {
    assert_eq!(
        compile("let #name = #value;"),
        "block[ident(let)@0..3 value(name)@5..9 punct(=,Alone)@10..11 value(value)@13..18 \
         punct(;,Alone)@18..19]"
    );
}

#[test]
fn scalar_substitution_inside_group() {
    assert_eq!(
        compile("f(#x)"),
        "block[ident(f)@0..1 group(Parenthesis)@1..5[value(x)@3..4]]"
    );
}

#[test]
fn marker_before_other_tokens_stands_for_itself() {
    assert_eq!(compile("#"), "block[punct(#,Alone)@0..1]");
    assert_eq!(compile("a #"), "block[ident(a)@0..1 punct(#,Alone)@2..3]");
    assert_eq!(compile("# 5"), "block[punct(#,Alone)@0..1 lit(Int32(5),5)@2..3]");
    assert_eq!(
        compile("# + x"),
        "block[punct(#,Alone)@0..1 punct(+,Alone)@2..3 ident(x)@4..5]"
    );
    assert_eq!(
        compile("#[a]"),
        "block[punct(#,Alone)@0..1 group(Bracket)@1..4[ident(a)@2..3]]"
    );
    assert_eq!(
        compile("#{a}"),
        "block[punct(#,Alone)@0..1 group(Brace)@1..4[ident(a)@2..3]]"
    );
    assert_eq!(
        compile("# # x"),
        "block[punct(#,Alone)@0..1 value(x)@4..5]"
    );
}

#[test]
fn other_punctuation_before_identifier_is_plain() {
    assert_eq!(compile("* x"), "block[punct(*,Alone)@0..1 ident(x)@2..3]");
    assert_eq!(
        compile("$ (x) *"),
        "block[punct($,Alone)@0..1 group(Parenthesis)@2..5[ident(x)@3..4] punct(*,Alone)@6..7]"
    );
}

#[test]
fn repetition_without_separator() {
    assert_eq!(compile("#( #x )*"), "block[repeat(x@4..5)body[value(x)@4..5]]");
}

#[test]
fn repetition_with_separator() {
    assert_eq!(
        compile("#( #x #y ) , *"),
        "block[repeat(x@4..5,y@7..8)sep[punct(,,Alone)@11..12]body[value(x)@4..5 value(y)@7..8]]"
    );
    assert_eq!(
        compile("#(#x #y),*"),
        "block[repeat(x@3..4,y@6..7)sep[punct(,,Joint)@8..9]body[value(x)@3..4 value(y)@6..7]]"
    );
}

#[test]
fn comma_behind_the_star_is_no_separator() {
    assert_eq!(
        compile("#( #x #y )* ,"),
        "block[repeat(x@4..5,y@7..8)body[value(x)@4..5 value(y)@7..8] punct(,,Alone)@12..13]"
    );
}

#[test]
fn repetition_among_tokens() {
    assert_eq!(
        compile("a #(#x);* b"),
        "block[ident(a)@0..1 repeat(x@5..6)sep[punct(;,Joint)@7..8]body[value(x)@5..6] \
         ident(b)@10..11]"
    );
}

#[test]
fn separator_of_several_tokens() {
    assert_eq!(
        compile("#(#x) , 1 (a) #s ; *"),
        "block[repeat(x@3..4)sep[punct(,,Alone)@6..7 lit(Int32(1),1)@8..9 \
         group(Parenthesis)@10..13[ident(a)@11..12] value(s)@15..16 punct(;,Alone)@17..18]\
         body[value(x)@3..4]]"
    );
}

#[test]
fn separator_may_end_in_a_lone_marker() {
    assert_eq!(
        compile("#(#x) # *"),
        "block[repeat(x@3..4)sep[punct(#,Alone)@6..7]body[value(x)@3..4]]"
    );
}

#[test]
fn names_are_recorded_once_in_order_of_first_use() {
    assert_eq!(
        compile("#(#b #a #b #c #a)*"),
        "block[repeat(b@3..4,a@6..7,c@12..13)body[value(b)@3..4 value(a)@6..7 value(b)@9..10 \
         value(c)@12..13 value(a)@15..16]]"
    );
}

#[test]
fn names_inside_groups_of_the_body_are_recorded() {
    assert_eq!(
        compile("#( f(#a, [#b]) #a #c )*"),
        "block[repeat(a@6..7,b@11..12,c@19..20)body[ident(f)@3..4 \
         group(Parenthesis)@4..14[value(a)@6..7 punct(,,Alone)@7..8 \
         group(Bracket)@9..13[value(b)@11..12]] value(a)@16..17 value(c)@19..20]]"
    );
}

#[test]
fn names_in_the_separator_are_not_recorded() {
    assert_eq!(
        compile("#(#x) #s *"),
        "block[repeat(x@3..4)sep[value(s)@7..8]body[value(x)@3..4]]"
    );
}

#[test]
fn repetition_inside_group() {
    assert_eq!(
        compile("[ #(#x),* ]"),
        "block[group(Bracket)@0..11[repeat(x@5..6)sep[punct(,,Joint)@7..8]body[value(x)@5..6]]]"
    );
}

#[test]
fn two_repetitions_in_a_row() {
    assert_eq!(
        compile("#(#x)* #(#y)*"),
        "block[repeat(x@3..4)body[value(x)@3..4] repeat(y@10..11)body[value(y)@10..11]]"
    );
}

#[test]
fn group_in_separator_is_a_template_of_its_own() {
    assert_eq!(
        compile("#(#x) ( #(#y)* ) *"),
        "block[repeat(x@3..4)sep[group(Parenthesis)@6..16[repeat(y@11..12)body[value(y)@11..12]]]\
         body[value(x)@3..4]]"
    );
}

#[test]
fn nested_repetition_is_rejected() {
    assert_eq!(
        compile("#( #( #x )* )*"),
        format!("error({})@4..10 end@4..10", NESTED)
    );
}

#[test]
fn nested_repetition_reaches_to_the_end_of_its_separator() {
    assert_eq!(
        compile("#( #( #x ) , * )*"),
        format!("error({})@4..10 end@11..12", NESTED)
    );
    assert_eq!(
        compile("#( #( #x ) , (a) #s * )*"),
        format!("error({})@4..10 end@18..19", NESTED)
    );
    assert_eq!(
        compile("#( #( #x ) , (a) * )*"),
        format!("error({})@4..10 end@13..16", NESTED)
    );
}

#[test]
fn nested_repetition_inside_group_of_the_body_is_rejected() {
    assert_eq!(
        compile("#( [ #(#x)* ] )*"),
        format!("error({})@6..10 end@6..10", NESTED)
    );
}

#[test]
fn repetition_in_separator_is_rejected() {
    assert_eq!(
        compile("#(#x) #(#y) , * *"),
        format!("error({})@7..11 end@12..13", NESTED)
    );
    assert_eq!(
        compile("#(#x) #(#y)* *"),
        format!("error({})@7..11 end@7..11", NESTED)
    );
}

#[test]
fn empty_repetition_is_rejected() {
    assert_eq!(compile("#( abc )*"), format!("error({})@1..8 end@1..8", EMPTY));
    assert_eq!(compile("#()*"), format!("error({})@1..3 end@1..3", EMPTY));
    assert_eq!(compile("#( # )*"), format!("error({})@1..6 end@1..6", EMPTY));
    assert_eq!(compile("#( a ) #s *"), format!("error({})@1..6 end@1..6", EMPTY));
}

#[test]
fn unterminated_repetition_is_rejected() {
    assert_eq!(compile("#( #x )"), format!("error({})@1..7 end@1..7", UNTERMINATED));
    assert_eq!(compile("#( #x ) , a"), format!("error({})@1..7 end@1..7", UNTERMINATED));
    assert_eq!(compile("a #(b)"), format!("error({})@3..6 end@3..6", UNTERMINATED));
}

#[test]
fn star_inside_a_group_closes_nothing() {
    assert_eq!(compile("#( #x ) (*)"), format!("error({})@1..7 end@1..7", UNTERMINATED));
}

#[test]
fn unterminated_inner_repetition_is_reported_for_the_inner_one() {
    assert_eq!(
        compile("#(#x) , #(#y) ;"),
        format!("error({})@9..13 end@9..13", UNTERMINATED)
    );
}

#[test]
fn first_error_wins() {
    assert_eq!(
        compile("#(a)* #(#x)"),
        format!("error({})@1..4 end@1..4", EMPTY)
    );
    assert_eq!(
        compile("#(#x) #(#y)* * #(a)*"),
        format!("error({})@7..11 end@7..11", NESTED)
    );
    assert_eq!(
        compile("( #(#x) ) #(a)*"),
        format!("error({})@3..7 end@3..7", UNTERMINATED)
    );
    assert_eq!(
        compile("#( #(#x) )*"),
        format!("error({})@4..8 end@4..8", UNTERMINATED)
    );
    assert_eq!(
        compile("#(#x) ( #(a)* ) #(#y)* *"),
        format!("error({})@9..12 end@9..12", EMPTY)
    );
}

#[test]
fn separator_is_compiled_before_the_body() {
    assert_eq!(
        compile("#( #(#x)* ) ( #(a)* ) *"),
        format!("error({})@15..18 end@15..18", EMPTY)
    );
}

#[test]
fn error_in_group_is_reported() {
    assert_eq!(compile("f { #(a)* }"), format!("error({})@5..8 end@5..8", EMPTY));
}

#[test]
fn error_messages() {
    assert_eq!(ErrorKind::EmptyRepetition.message(), EMPTY);
    assert_eq!(ErrorKind::NestedRepetition.message(), NESTED);
    assert_eq!(ErrorKind::UnterminatedRepetition.message(), UNTERMINATED);
    let error = Error::new(Span::call_site(), ErrorKind::NestedRepetition);
    assert_eq!(error.message(), NESTED);
}

#[test]
fn error_is_raised_where_it_stands() {
    let tokens = lex("a b");
    let (a, b) = (span_of(&tokens[0]), span_of(&tokens[1]));
    let error = Error::new(a, ErrorKind::EmptyRepetition);
    assert_eq!(error.kind, ErrorKind::EmptyRepetition);
    assert_eq!(at(error.span_s), "0..1");
    assert!(error.span_e.is_none());
    assert_eq!(show_diagnostic(&error.raise()), format!("error({})@0..1 end@0..1", EMPTY));
    let longer = error.end_span(b);
    assert_eq!(longer.kind, ErrorKind::EmptyRepetition);
    assert_eq!(at(longer.span_s), "0..1");
    assert_eq!(longer.span_e.map(at), Some(String::from("2..3")));
    assert_eq!(show_diagnostic(&longer.raise()), format!("error({})@0..1 end@2..3", EMPTY));
}

#[test]
fn span_of_each_token() {
    let tokens = lex("a + 1 (b)");
    let spans: Vec<String> = tokens.iter().map(|t| at(span_of(t))).collect();
    assert_eq!(spans, vec!["0..1", "2..3", "4..5", "6..9"]);
}

#[test]
fn header_wraps_the_program() {
    let tokens = lex("a b");
    let program = parse_token_stream(&tokens).unwrap();
    let Block { instructions } = generate_quote_header(program);
    assert_eq!(show(&instructions), "ident(a)@0..1 ident(b)@2..3");
}

#[test]
fn emitters_append_one_instruction() {
    let tokens = lex("a + 7 (b) c");
    let mut program = Vec::new();
    for token in &tokens {
        match token {
            TokenTree::Ident(ident) => parse_ident(&mut program, ident),
            TokenTree::Punct(punct) => parse_punct(&mut program, punct),
            TokenTree::Literal(literal) => parse_literal(&mut program, literal),
            TokenTree::Group(group) => parse_group(&mut program, group).unwrap(),
        }
    }
    parse_group_inner(
        &mut program,
        Block { instructions: Vec::new() },
        Delimiter::Brace,
        span_of(&tokens[0]),
    );
    assert_eq!(
        show(&program),
        "ident(a)@0..1 punct(+,Alone)@2..3 lit(Int32(7),7)@4..5 \
         group(Parenthesis)@6..9[ident(b)@7..8] ident(c)@10..11 group(Brace)@0..1[]"
    );
}

#[test]
fn failed_group_emits_nothing() {
    let tokens = lex("a ( #(b)* )");
    let mut program = Vec::new();
    let group = match &tokens[1] {
        TokenTree::Group(group) => group,
        other => panic!("not a group: {:?}", other),
    };
    match &tokens[0] {
        TokenTree::Ident(ident) => parse_ident(&mut program, ident),
        other => panic!("not an identifier: {:?}", other),
    }
    let error = parse_group(&mut program, group).unwrap_err();
    assert_eq!(show_error(&error), "EmptyRepetition@5..8");
    assert_eq!(show(&program), "ident(a)@0..1");
    let mut names = Vec::new();
    let error = parse_group_in_iterator_pattern(&mut program, group, &mut names).unwrap_err();
    assert_eq!(show_error(&error), "NestedRepetition@5..8 end@5..8");
    assert_eq!(show(&program), "ident(a)@0..1");
}

#[test]
fn group_in_body_records_names() {
    let tokens = lex("(#b #a) #c");
    let group = match &tokens[0] {
        TokenTree::Group(group) => group,
        other => panic!("not a group: {:?}", other),
    };
    let mut program = Vec::new();
    let mut names = vec![Ident { text: String::from("a"), span: span_of(&tokens[2]) }];
    parse_group_in_iterator_pattern(&mut program, group, &mut names).unwrap();
    assert_eq!(show(&program), "group(Parenthesis)@0..7[value(b)@2..3 value(a)@5..6]");
    assert_eq!(show_names(&names), "a@9..10,b@2..3");
}

#[test]
fn recording_a_name_twice_keeps_the_first() {
    let tokens = lex("x y x");
    let idents: Vec<&Ident> = tokens
        .iter()
        .map(|t| match t {
            TokenTree::Ident(ident) => ident,
            other => panic!("not an identifier: {:?}", other),
        })
        .collect();
    let mut names = Vec::new();
    record_name(&mut names, idents[0]);
    assert_eq!(show_names(&names), "x@0..1");
    record_name(&mut names, idents[1]);
    assert_eq!(show_names(&names), "x@0..1,y@2..3");
    record_name(&mut names, idents[2]);
    assert_eq!(show_names(&names), "x@0..1,y@2..3");
}

#[test]
fn body_walk_extends_given_names() {
    let tokens = lex("#a #b #c");
    let mut names = vec![Ident { text: String::from("b"), span: Span::call_site() }];
    let program = parse_token_stream_in_iterator_pattern(&tokens, &mut names);
    assert_eq!(show_result(&program), "ok[value(a)@1..2 value(b)@4..5 value(c)@7..8]");
    assert_eq!(show_names(&names), "b@0..0,a@1..2,c@7..8");
}

#[test]
fn pattern_detection_moves_the_cursor() {
    let tokens = lex("# x # (a) , * # 5 + y #");
    let punct = |i: usize| match &tokens[i] {
        TokenTree::Punct(punct) => *punct,
        other => panic!("not punctuation: {:?}", other),
    };

    let mut pos = 1;
    match interpolation_pattern_type(&punct(0), &tokens, &mut pos).unwrap() {
        InterpolationPattern::Ident(ident) => assert_eq!(ident.text, "x"),
        other => panic!("not a name: {:?}", other),
    }
    assert_eq!(pos, 2);

    let mut pos = 3;
    match interpolation_pattern_type(&punct(2), &tokens, &mut pos).unwrap() {
        InterpolationPattern::Iterator(group, separator) => {
            assert_eq!(at(group.span), "6..9");
            assert_eq!(show(&separator), "punct(,,Alone)@10..11");
        }
        other => panic!("not a repetition: {:?}", other),
    }
    assert_eq!(pos, 6);

    let mut pos = 7;
    match interpolation_pattern_type(&punct(6), &tokens, &mut pos).unwrap() {
        InterpolationPattern::NotAPlaceholder => {}
        other => panic!("a pattern: {:?}", other),
    }
    assert_eq!(pos, 7);

    let mut pos = 9;
    match interpolation_pattern_type(&punct(8), &tokens, &mut pos).unwrap() {
        InterpolationPattern::NotAPlaceholder => {}
        other => panic!("a pattern: {:?}", other),
    }
    assert_eq!(pos, 9);

    let mut pos = 11;
    match interpolation_pattern_type(&punct(10), &tokens, &mut pos).unwrap() {
        InterpolationPattern::NotAPlaceholder => {}
        other => panic!("a pattern: {:?}", other),
    }
    assert_eq!(pos, 11);
}

#[test]
fn separator_stops_behind_the_first_star() {
    let tokens = lex("a , #s * b *");
    let mut pos = 0;
    let separator = parse_separator(&tokens, &mut pos, Span::call_site());
    assert_eq!(
        show_result(&separator),
        "ok[ident(a)@0..1 punct(,,Alone)@2..3 value(s)@5..6]"
    );
    assert_eq!(pos, 5);
    let separator = parse_separator(&tokens, &mut pos, Span::call_site());
    assert_eq!(show_result(&separator), "ok[ident(b)@9..10]");
    assert_eq!(pos, 7);
    let separator = parse_separator(&tokens, &mut pos, span_of(&tokens[0]));
    assert_eq!(show_result(&separator), "UnterminatedRepetition@0..1");
    assert_eq!(pos, 7);
}

#[test]
fn empty_separator() {
    let tokens = lex("* a");
    let mut pos = 0;
    let separator = parse_separator(&tokens, &mut pos, Span::call_site());
    assert_eq!(show_result(&separator), "ok[]");
    assert_eq!(pos, 1);
}

#[test]
fn loop_for_a_group() {
    let tokens = lex("(#x + #y) (a) ,");
    let group = |i: usize| match &tokens[i] {
        TokenTree::Group(group) => group,
        other => panic!("not a group: {:?}", other),
    };
    let mut program = Vec::new();
    interpolate_iterator_group(&mut program, group(0), Vec::new()).unwrap();
    assert_eq!(
        show(&program),
        "repeat(x@2..3,y@7..8)body[value(x)@2..3 punct(+,Alone)@4..5 value(y)@7..8]"
    );
    let separator = parse_token_stream(&lex(",")).unwrap();
    interpolate_iterator_group(&mut program, group(0), separator).unwrap();
    assert_eq!(program.len(), 2);
    assert_eq!(
        show_one(&program[1]),
        "repeat(x@2..3,y@7..8)sep[punct(,,Alone)@0..1]body[value(x)@2..3 punct(+,Alone)@4..5 \
         value(y)@7..8]"
    );
    let error = interpolate_iterator_group(&mut program, group(1), Vec::new()).unwrap_err();
    assert_eq!(show_error(&error), "EmptyRepetition@10..13");
    assert_eq!(program.len(), 2);
}

#[test]
fn raw_identifier_keeps_its_spelling() {
    assert_eq!(compile("#r#type"), "block[value(r#type)@1..7]");
    assert_eq!(
        compile("#(#r#type #r#type)*"),
        "block[repeat(r#type@3..9)body[value(r#type)@3..9 value(r#type)@11..17]]"
    );
}

#[test]
fn star_outside_a_repetition_is_plain() {
    assert_eq!(
        compile("a * b"),
        "block[ident(a)@0..1 punct(*,Alone)@2..3 ident(b)@4..5]"
    );
    assert_eq!(compile("*"), "block[punct(*,Alone)@0..1]");
}

#[test]
fn star_inside_a_group_of_the_separator_is_plain() {
    assert_eq!(
        compile("#(#x) (*) *"),
        "block[repeat(x@3..4)sep[group(Parenthesis)@6..9[punct(*,Alone)@7..8]]body[value(x)@3..4]]"
    );
}

#[test]
fn plain_template_has_one_instruction_for_each_token() {
    let source = "fn f(a: u32, b: &str) -> [u8; 4] { g(a, b, 1.5, \"s\") >> 2 }";
    let tokens = lex(source);
    let expected: Vec<String> = tokens.iter().map(|t| at(span_of(t))).collect();
    match quote(lex(source)) {
        Generated::Block(block) => {
            assert_eq!(block.instructions.len(), tokens.len());
            for (instruction, token) in block.instructions.iter().zip(tokens.iter()) {
                match (instruction, token) {
                    (Instruction::Ident(a), TokenTree::Ident(b)) => assert_eq!(a.text, b.text),
                    (Instruction::Punct(a), TokenTree::Punct(b)) => {
                        assert_eq!(a.ch, b.ch);
                        assert_eq!(a.spacing, b.spacing);
                    }
                    (Instruction::Literal { literal, .. }, TokenTree::Literal(b)) => {
                        assert_eq!(literal.text, b.text)
                    }
                    (Instruction::Group { delimiter, inner, .. }, TokenTree::Group(b)) => {
                        assert_eq!(*delimiter, b.delimiter);
                        assert_eq!(inner.instructions.len(), b.stream.len());
                    }
                    (a, b) => panic!("{:?} for {:?}", a, b),
                }
            }
            let spans: Vec<String> = block
                .instructions
                .iter()
                .map(|i| match i {
                    Instruction::Ident(a) => at(a.span),
                    Instruction::Punct(a) => at(a.span),
                    Instruction::Literal { literal, .. } => at(literal.span),
                    Instruction::Group { span, .. } => at(*span),
                    other => panic!("not a plain instruction: {:?}", other),
                })
                .collect();
            assert_eq!(spans, expected);
        }
        other => panic!("not a block: {:?}", other),
    }
}

#[test]
fn nested_error_reaches_to_the_token_before_the_star() {
    let tokens = lex("a b c d");
    let span = span_of(&tokens[0]);
    assert_eq!(
        show_error(&nested_repetition(&tokens, 1, 3, span)),
        "NestedRepetition@0..1 end@4..5"
    );
    assert_eq!(
        show_error(&nested_repetition(&tokens, 1, 2, span)),
        "NestedRepetition@0..1 end@2..3"
    );
    assert_eq!(
        show_error(&nested_repetition(&tokens, 1, 1, span)),
        "NestedRepetition@0..1 end@0..1"
    );
    assert_eq!(
        show_error(&nested_repetition(&tokens, 0, 4, span)),
        "NestedRepetition@0..1 end@6..7"
    );
    assert_eq!(
        show_error(&nested_repetition(&tokens, 0, 0, span)),
        "NestedRepetition@0..1 end@0..1"
    );
}

#[test]
fn interpolation_appends_one_instruction() {
    let tokens = lex("x");
    let ident = match &tokens[0] {
        TokenTree::Ident(ident) => ident,
        other => panic!("not an identifier: {:?}", other),
    };
    let mut program = Vec::new();
    interpolate_to_tokens_ident(&mut program, ident);
    interpolate_to_tokens_ident(&mut program, ident);
    assert_eq!(show(&program), "value(x)@0..1 value(x)@0..1");
}

#[test]
fn repetition_over_three_names_keeps_their_order() {
    assert_eq!(
        compile("#(#c: #a = #b;)*"),
        "block[repeat(c@3..4,a@7..8,b@12..13)body[value(c)@3..4 punct(:,Alone)@4..5 \
         value(a)@7..8 punct(=,Alone)@9..10 value(b)@12..13 punct(;,Alone)@13..14]]"
    );
}

#[test]
fn names_that_differ_in_case_are_different() {
    assert_eq!(
        compile("#(#x #X)*"),
        "block[repeat(x@3..4,X@6..7)body[value(x)@3..4 value(X)@6..7]]"
    );
}
