//! The program that a template compiles to: the instructions that rebuild
//! the template's tokens, in order, on a stream that starts empty.

use vstd::prelude::*;
use proc_macro2::Span;
use crate::literal::LiteralKind;
use crate::tokens::{Delimiter, Ident, IdentView, Literal, Punct};

verus! {

/// One step of a program. Each step but `Repeat` appends to the stream.
#[derive(Debug)]
pub enum Instruction {
    /// Append an identifier, spelled as in the template.
    Ident(Ident),
    /// Append a punctuation character with its spacing.
    Punct(Punct),
    /// Append a literal, rebuilt as `kind` says.
    Literal { kind: LiteralKind, literal: Literal },
    /// Run `inner` on a stream of its own and append the result as a group.
    Group { delimiter: Delimiter, inner: Block, span: Span },
    /// Append the tokens of the value that is bound to the name.
    Interpolate(Ident),
    /// Walk the sequences bound to `names` in step, as far as the shortest
    /// reaches, and run `body` once for each step with every name bound to
    /// its sequence's item. With a separator, run it before each pass of
    /// `body` but the first.
    Repeat { names: Vec<Ident>, separator: Option<Vec<Instruction>>, body: Vec<Instruction> },
}

/// A program with the stream it works on: it makes an empty stream, runs
/// the instructions on it and yields it.
#[derive(Debug)]
pub struct Block {
    pub instructions: Vec<Instruction>,
}

/// What a compilation hands back: a program, or the error to report where
/// the template stands.
#[derive(Debug)]
pub enum Generated {
    Block(Block),
    Diagnostic(Diagnostic),
}

/// A compile error to raise: `message` located at `span`, the statement that
/// raises it ending at `end`.
#[derive(Clone, Copy, Debug)]
pub struct Diagnostic {
    pub message: &'static str,
    pub span: Span,
    pub end: Span,
}

/// What an instruction is to the contracts.
pub enum InstructionView {
    Ident(IdentView),
    Punct(Punct),
    Literal { kind: LiteralKind, text: Seq<char>, span: Span },
    Group { delimiter: Delimiter, inner: Seq<InstructionView>, span: Span },
    Interpolate(IdentView),
    Repeat {
        names: Seq<IdentView>,
        separator: Option<Seq<InstructionView>>,
        body: Seq<InstructionView>,
    },
}

/// What a diagnostic is to the contracts.
pub struct DiagnosticView {
    pub message: Seq<char>,
    pub span: Span,
    pub end: Span,
}

/// What a compilation's result is to the contracts.
pub enum GeneratedView {
    Block(Seq<InstructionView>),
    Diagnostic(DiagnosticView),
}

impl View for Instruction {
    type V = InstructionView;

    open spec fn view(&self) -> InstructionView
        decreases self,
    {
        match self {
            Instruction::Ident(ident) => InstructionView::Ident(ident@),
            Instruction::Punct(punct) => InstructionView::Punct(*punct),
            Instruction::Literal { kind, literal } => InstructionView::Literal {
                kind: *kind,
                text: literal.text@,
                span: literal.span,
            },
            Instruction::Group { delimiter, inner, span } => InstructionView::Group {
                delimiter: *delimiter,
                inner: program_view(inner.instructions@),
                span: *span,
            },
            Instruction::Interpolate(ident) => InstructionView::Interpolate(ident@),
            Instruction::Repeat { names, separator, body } => InstructionView::Repeat {
                names: names_view(names@),
                separator: match separator {
                    Some(program) => Some(program_view(program@)),
                    None => None,
                },
                body: program_view(body@),
            },
        }
    }
}

/// The instructions of a program, each by its view.
pub open spec fn program_view(program: Seq<Instruction>) -> Seq<InstructionView>
    decreases program,
{
    Seq::new(
        program.len(),
        |i: int|
            if 0 <= i < program.len() {
                program[i]@
            } else {
                arbitrary()
            },
    )
}

/// A list of names, each by its view.
pub open spec fn names_view(names: Seq<Ident>) -> Seq<IdentView> {
    Seq::new(names.len(), |i: int| names[i]@)
}

impl View for Block {
    type V = Seq<InstructionView>;

    open spec fn view(&self) -> Seq<InstructionView> {
        program_view(self.instructions@)
    }
}

impl View for Diagnostic {
    type V = DiagnosticView;

    open spec fn view(&self) -> DiagnosticView {
        DiagnosticView { message: self.message@, span: self.span, end: self.end }
    }
}

impl View for Generated {
    type V = GeneratedView;

    open spec fn view(&self) -> GeneratedView {
        match self {
            Generated::Block(block) => GeneratedView::Block(block@),
            Generated::Diagnostic(diagnostic) => GeneratedView::Diagnostic(diagnostic@),
        }
    }
}

/// Appending an instruction appends its view.
pub proof fn lemma_program_view_push(program: Seq<Instruction>, instruction: Instruction)
    ensures
        program_view(program.push(instruction)) == program_view(program).push(instruction@),
{
    assert(program_view(program.push(instruction)) =~= program_view(program).push(instruction@));
}

/// Appending a name appends its view.
pub proof fn lemma_names_view_push(names: Seq<Ident>, name: Ident)
    ensures
        names_view(names.push(name)) == names_view(names).push(name@),
{
    assert(names_view(names.push(name)) =~= names_view(names).push(name@));
}

/// Wraps a program into the block that makes the stream it works on and
/// yields it at the end.
pub fn generate_quote_header(inner: Vec<Instruction>) -> (block: Block)
    ensures
        block@ == program_view(inner@),
{
    Block { instructions: inner }
}

/// Some name in `names` is spelled `text`.
pub open spec fn has_name(names: Seq<IdentView>, text: Seq<char>) -> bool {
    exists|i: int| 0 <= i < names.len() && (#[trigger] names[i]).text == text
}

/// `names`, and `name` behind them unless its spelling is there already.
pub open spec fn add_name(names: Seq<IdentView>, name: IdentView) -> Seq<IdentView> {
    if has_name(names, name.text) {
        names
    } else {
        names.push(name)
    }
}

/// No two of the names are spelled alike.
pub open spec fn distinct_names(names: Seq<IdentView>) -> bool {
    forall|i: int, j: int|
        0 <= i < j < names.len() ==> (#[trigger] names[i]).text != (#[trigger] names[j]).text
}

/// `names`, and behind them the names that the instruction interpolates,
/// in their order, each unless its spelling is there already. A group's
/// program counts; a loop has names of its own.
pub open spec fn recorded_by(names: Seq<IdentView>, instruction: InstructionView) -> Seq<
    IdentView,
>
    decreases instruction,
{
    match instruction {
        InstructionView::Interpolate(name) => add_name(names, name),
        InstructionView::Group { inner, .. } => recorded_upto(names, inner, inner.len()),
        _ => names,
    }
}

/// `names`, and behind them the names that the first `n` instructions of
/// `program` interpolate.
pub open spec fn recorded_upto(names: Seq<IdentView>, program: Seq<InstructionView>, n: nat) -> Seq<
    IdentView,
>
    decreases program, n,
{
    if n == 0 || n > program.len() {
        names
    } else {
        recorded_by(recorded_upto(names, program, (n - 1) as nat), program[n - 1])
    }
}

/// `names`, and behind them the names that `program` interpolates: each
/// once, in the order of its first use.
pub open spec fn recorded(names: Seq<IdentView>, program: Seq<InstructionView>) -> Seq<IdentView> {
    recorded_upto(names, program, program.len())
}

/// No loop stands in the instruction, at any depth.
pub open spec fn instruction_loop_free(instruction: InstructionView) -> bool
    decreases instruction,
{
    match instruction {
        InstructionView::Repeat { .. } => false,
        InstructionView::Group { inner, .. } => loop_free(inner),
        _ => true,
    }
}

/// No loop stands in the program, at any depth.
pub open spec fn loop_free(program: Seq<InstructionView>) -> bool
    decreases program,
{
    forall|i: int| 0 <= i < program.len() ==> instruction_loop_free(#[trigger] program[i])
}

/// No instruction of the program is itself a loop.
pub open spec fn no_loop_at_top(program: Seq<InstructionView>) -> bool {
    forall|i: int| 0 <= i < program.len() ==> !((#[trigger] program[i]) is Repeat)
}

/// The instruction is one that the compiler emits. A loop runs over at
/// least one name and over no name twice; its names are those that its
/// body interpolates, in the order of their first use; no loop stands in
/// its body; a separator, if it has one, is not empty and is no loop
/// itself. The same holds of the programs inside it.
pub open spec fn instruction_well_formed(instruction: InstructionView) -> bool
    decreases instruction,
{
    match instruction {
        InstructionView::Group { inner, .. } => well_formed(inner),
        InstructionView::Repeat { names, separator, body } => {
            &&& names.len() > 0
            &&& distinct_names(names)
            &&& names == recorded(Seq::empty(), body)
            &&& loop_free(body)
            &&& well_formed(body)
            &&& match separator {
                Some(program) => program.len() > 0 && no_loop_at_top(program) && well_formed(
                    program,
                ),
                None => true,
            }
        },
        _ => true,
    }
}

/// Each instruction of the program is one that the compiler emits.
pub open spec fn well_formed(program: Seq<InstructionView>) -> bool
    decreases program,
{
    forall|i: int| 0 <= i < program.len() ==> instruction_well_formed(#[trigger] program[i])
}

} // verus!
