//! What holds of every program that the compiler emits.

use vstd::prelude::*;
use crate::grammar::{
    closing_star, lemma_closing_star_bounds, literal_instruction, marker, parse_spec,
    repeat_instruction, walk, Marker, Mode,
};
use crate::program::{
    add_name, distinct_names, has_name, instruction_loop_free, instruction_well_formed, loop_free,
    no_loop_at_top, recorded, recorded_by, recorded_upto, well_formed, InstructionView,
};
use crate::tokens::{IdentView, Punct, TokenView};

verus! {

/// The names recorded by the first instructions of a program do not depend
/// on what stands behind them.
pub proof fn lemma_recorded_prefix(
    names: Seq<IdentView>,
    program: Seq<InstructionView>,
    instruction: InstructionView,
    n: nat,
)
    requires
        n <= program.len(),
    ensures
        recorded_upto(names, program.push(instruction), n) == recorded_upto(names, program, n),
    decreases n,
{
    if n > 0 {
        lemma_recorded_prefix(names, program, instruction, (n - 1) as nat);
        assert(program.push(instruction)[n - 1] == program[n - 1]);
    }
}

/// The names recorded by a program with one more instruction are those of
/// the program, and behind them those of the instruction.
pub proof fn lemma_recorded_push(
    names: Seq<IdentView>,
    program: Seq<InstructionView>,
    instruction: InstructionView,
)
    ensures
        recorded(names, program.push(instruction)) == recorded_by(
            recorded(names, program),
            instruction,
        ),
{
    lemma_recorded_prefix(names, program, instruction, program.len());
    assert(program.push(instruction)[program.len() as int] == instruction);
}

/// Adding a name to names that are spelled differently from each other
/// leaves them so.
pub proof fn lemma_add_name_distinct(names: Seq<IdentView>, name: IdentView)
    requires
        distinct_names(names),
    ensures
        distinct_names(add_name(names, name)),
{
    if !has_name(names, name.text) {
        let added = names.push(name);
        assert forall|i: int, j: int| 0 <= i < j < added.len() implies (#[trigger] added[i]).text
            != (#[trigger] added[j]).text by {
            if j == names.len() {
                assert(added[i] == names[i]);
            } else {
                assert(added[i] == names[i]);
                assert(added[j] == names[j]);
            }
        }
    }
}

/// What holds of a program and of the names recorded with it while a
/// template is read: the program is one that the compiler emits; in the
/// body of a repetition it holds no loop, and the names are those that it
/// interpolates, behind the names `base` that were there before, no two
/// spelled alike; in a separator no instruction is a loop.
pub open spec fn walk_invariant(
    mode: Mode,
    program: Seq<InstructionView>,
    names: Seq<IdentView>,
    base: Seq<IdentView>,
) -> bool {
    &&& well_formed(program)
    &&& mode is Repetition ==> loop_free(program) && distinct_names(names) && names == recorded(
        base,
        program,
    )
    &&& mode is Separator ==> no_loop_at_top(program)
}

/// Appending an instruction keeps what holds while a template is read, if
/// the instruction is one that the compiler emits, and no loop where none
/// may stand, and the names are those recorded with it.
pub proof fn lemma_walk_invariant_push(
    mode: Mode,
    program: Seq<InstructionView>,
    names: Seq<IdentView>,
    base: Seq<IdentView>,
    instruction: InstructionView,
    after: Seq<IdentView>,
)
    requires
        walk_invariant(mode, program, names, base),
        instruction_well_formed(instruction),
        mode is Repetition ==> instruction_loop_free(instruction) && after == recorded_by(
            names,
            instruction,
        ) && distinct_names(after),
        mode is Separator ==> !(instruction is Repeat),
    ensures
        walk_invariant(mode, program.push(instruction), after, base),
{
    let pushed = program.push(instruction);
    assert forall|i: int| 0 <= i < pushed.len() implies instruction_well_formed(
        #[trigger] pushed[i],
    ) by {
        if i < program.len() {
            assert(pushed[i] == program[i]);
        }
    }
    if mode is Repetition {
        assert forall|i: int| 0 <= i < pushed.len() implies instruction_loop_free(
            #[trigger] pushed[i],
        ) by {
            if i < program.len() {
                assert(pushed[i] == program[i]);
            }
        }
        lemma_recorded_push(base, program, instruction);
    }
    if mode is Separator {
        assert forall|i: int| 0 <= i < pushed.len() implies !((#[trigger] pushed[i]) is Repeat) by {
            if i < program.len() {
                assert(pushed[i] == program[i]);
            }
        }
    }
}

/// Reading tokens keeps `walk_invariant`: what holds of the program and
/// the names at the start holds of them at the end. Outside the body of a
/// repetition no name is recorded.
pub proof fn lemma_walk_keeps_invariant(
    tokens: Seq<TokenView>,
    pos: int,
    end: int,
    mode: Mode,
    program: Seq<InstructionView>,
    names: Seq<IdentView>,
    base: Seq<IdentView>,
)
    requires
        walk_invariant(mode, program, names, base),
    ensures
        walk(tokens, pos, end, mode, program, names) matches Ok(w) ==> {
            &&& walk_invariant(mode, w.program, w.names, base)
            &&& !(mode is Repetition) ==> w.names == names
        },
    decreases tokens, tokens.len() - pos,
{
    if 0 <= pos < end <= tokens.len() {
        match tokens[pos] {
            TokenView::Group { delimiter, stream, span } => {
                let inner_mode = if mode is Repetition {
                    Mode::Repetition
                } else {
                    Mode::Plain
                };
                let inner_names = if mode is Repetition {
                    names
                } else {
                    Seq::empty()
                };
                lemma_walk_keeps_invariant(
                    stream,
                    0,
                    stream.len() as int,
                    inner_mode,
                    Seq::empty(),
                    inner_names,
                    inner_names,
                );
                match walk(stream, 0, stream.len() as int, inner_mode, Seq::empty(), inner_names) {
                    Err(e) => {},
                    Ok(w) => {
                        let instruction = InstructionView::Group {
                            delimiter,
                            inner: w.program,
                            span,
                        };
                        let after = if mode is Repetition {
                            w.names
                        } else {
                            names
                        };
                        lemma_walk_invariant_push(mode, program, names, base, instruction, after);
                        lemma_walk_keeps_invariant(
                            tokens,
                            pos + 1,
                            end,
                            mode,
                            program.push(instruction),
                            after,
                            base,
                        );
                    },
                }
            },
            TokenView::Ident { text, span } => {
                let instruction = InstructionView::Ident(IdentView { text, span });
                lemma_walk_invariant_push(mode, program, names, base, instruction, names);
                lemma_walk_keeps_invariant(
                    tokens,
                    pos + 1,
                    end,
                    mode,
                    program.push(instruction),
                    names,
                    base,
                );
            },
            TokenView::Literal { text, span } => {
                let instruction = literal_instruction(text, span);
                lemma_walk_invariant_push(mode, program, names, base, instruction, names);
                lemma_walk_keeps_invariant(
                    tokens,
                    pos + 1,
                    end,
                    mode,
                    program.push(instruction),
                    names,
                    base,
                );
            },
            TokenView::Punct { ch, spacing, span } => {
                match marker(ch, tokens, pos + 1) {
                    Marker::Absent => {
                        let instruction = InstructionView::Punct(Punct { ch, spacing, span });
                        lemma_walk_invariant_push(mode, program, names, base, instruction, names);
                        lemma_walk_keeps_invariant(
                            tokens,
                            pos + 1,
                            end,
                            mode,
                            program.push(instruction),
                            names,
                            base,
                        );
                    },
                    Marker::Scalar(name) => {
                        let instruction = InstructionView::Interpolate(name);
                        let after = if mode is Repetition {
                            add_name(names, name)
                        } else {
                            names
                        };
                        if mode is Repetition {
                            lemma_add_name_distinct(names, name);
                        }
                        lemma_walk_invariant_push(mode, program, names, base, instruction, after);
                        lemma_walk_keeps_invariant(
                            tokens,
                            pos + 2,
                            end,
                            mode,
                            program.push(instruction),
                            after,
                            base,
                        );
                    },
                    Marker::Repetition { body, span: anchor } => {
                        if mode is Plain {
                            let star = closing_star(tokens, pos + 2);
                            lemma_closing_star_bounds(tokens, pos + 2);
                            lemma_walk_keeps_invariant(
                                tokens,
                                pos + 2,
                                star,
                                Mode::Separator,
                                Seq::empty(),
                                Seq::empty(),
                                Seq::empty(),
                            );
                            lemma_walk_keeps_invariant(
                                body,
                                0,
                                body.len() as int,
                                Mode::Repetition,
                                Seq::empty(),
                                Seq::empty(),
                                Seq::empty(),
                            );
                            match walk(
                                tokens,
                                pos + 2,
                                star,
                                Mode::Separator,
                                Seq::empty(),
                                Seq::empty(),
                            ) {
                                Err(e) => {},
                                Ok(separator) => {
                                    match walk(
                                        body,
                                        0,
                                        body.len() as int,
                                        Mode::Repetition,
                                        Seq::empty(),
                                        Seq::empty(),
                                    ) {
                                        Err(e) => {},
                                        Ok(repeated) => {
                                            if repeated.names.len() > 0 && star < tokens.len() {
                                                let instruction = repeat_instruction(
                                                    repeated.names,
                                                    separator.program,
                                                    repeated.program,
                                                );
                                                lemma_walk_invariant_push(
                                                    mode,
                                                    program,
                                                    names,
                                                    base,
                                                    instruction,
                                                    names,
                                                );
                                                lemma_walk_keeps_invariant(
                                                    tokens,
                                                    star + 1,
                                                    end,
                                                    mode,
                                                    program.push(instruction),
                                                    names,
                                                    base,
                                                );
                                            }
                                        },
                                    }
                                },
                            }
                        }
                    },
                }
            },
        }
    }
}

/// Every program that a template compiles to is one that the compiler
/// emits: see `instruction_well_formed`.
pub proof fn lemma_program_well_formed(tokens: Seq<TokenView>)
    ensures
        parse_spec(tokens) matches Ok(program) ==> well_formed(program),
{
    lemma_walk_keeps_invariant(
        tokens,
        0,
        tokens.len() as int,
        Mode::Plain,
        Seq::empty(),
        Seq::empty(),
        Seq::empty(),
    );
}

/// Reading tokens only ever appends: the program that was there stands at
/// the start of the program that comes out, unchanged, and so do the names.
pub proof fn lemma_walk_appends(
    tokens: Seq<TokenView>,
    pos: int,
    end: int,
    mode: Mode,
    program: Seq<InstructionView>,
    names: Seq<IdentView>,
)
    ensures
        walk(tokens, pos, end, mode, program, names) matches Ok(w) ==> {
            &&& program.is_prefix_of(w.program)
            &&& names.is_prefix_of(w.names)
        },
    decreases tokens, tokens.len() - pos,
{
    if 0 <= pos < end <= tokens.len() {
        match tokens[pos] {
            TokenView::Group { delimiter, stream, span } => {
                let inner_mode = if mode is Repetition {
                    Mode::Repetition
                } else {
                    Mode::Plain
                };
                let inner_names = if mode is Repetition {
                    names
                } else {
                    Seq::empty()
                };
                lemma_walk_appends(
                    stream,
                    0,
                    stream.len() as int,
                    inner_mode,
                    Seq::empty(),
                    inner_names,
                );
                match walk(stream, 0, stream.len() as int, inner_mode, Seq::empty(), inner_names) {
                    Err(e) => {},
                    Ok(w) => {
                        lemma_walk_appends(
                            tokens,
                            pos + 1,
                            end,
                            mode,
                            program.push(
                                InstructionView::Group { delimiter, inner: w.program, span },
                            ),
                            if mode is Repetition {
                                w.names
                            } else {
                                names
                            },
                        );
                    },
                }
            },
            TokenView::Ident { text, span } => {
                lemma_walk_appends(
                    tokens,
                    pos + 1,
                    end,
                    mode,
                    program.push(InstructionView::Ident(IdentView { text, span })),
                    names,
                );
            },
            TokenView::Literal { text, span } => {
                lemma_walk_appends(
                    tokens,
                    pos + 1,
                    end,
                    mode,
                    program.push(literal_instruction(text, span)),
                    names,
                );
            },
            TokenView::Punct { ch, spacing, span } => {
                match marker(ch, tokens, pos + 1) {
                    Marker::Absent => {
                        lemma_walk_appends(
                            tokens,
                            pos + 1,
                            end,
                            mode,
                            program.push(InstructionView::Punct(Punct { ch, spacing, span })),
                            names,
                        );
                    },
                    Marker::Scalar(name) => {
                        lemma_walk_appends(
                            tokens,
                            pos + 2,
                            end,
                            mode,
                            program.push(InstructionView::Interpolate(name)),
                            if mode is Repetition {
                                add_name(names, name)
                            } else {
                                names
                            },
                        );
                    },
                    Marker::Repetition { body, span: anchor } => {
                        let star = closing_star(tokens, pos + 2);
                        lemma_closing_star_bounds(tokens, pos + 2);
                        let separator = walk(
                            tokens,
                            pos + 2,
                            star,
                            Mode::Separator,
                            Seq::empty(),
                            Seq::empty(),
                        );
                        let repeated = walk(
                            body,
                            0,
                            body.len() as int,
                            Mode::Repetition,
                            Seq::empty(),
                            Seq::empty(),
                        );
                        if mode is Plain && separator is Ok && repeated is Ok && star
                            < tokens.len() {
                            lemma_walk_appends(
                                tokens,
                                star + 1,
                                end,
                                mode,
                                program.push(
                                    repeat_instruction(
                                        repeated->Ok_0.names,
                                        separator->Ok_0.program,
                                        repeated->Ok_0.program,
                                    ),
                                ),
                                names,
                            );
                        }
                    },
                }
            },
        }
    }
}

} // verus!
