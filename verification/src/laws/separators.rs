//! Where a separator ends, and where a repetition may not stand.

use vstd::prelude::*;
use proc_macro2::Span;
use crate::grammar::{is_punct, lemma_closing_star_bounds, marker, separator_spec, walk, Mode};
use crate::program::InstructionView;
use crate::tokens::{IdentView, Punct, TokenView};

verus! {

/// A separator reaches to the first `*` behind its start: where it is
/// read without error from `tokens[from]` on, the next token stands behind
/// a `*`, and no `*` stands between `tokens[from]` and that one.
pub proof fn lemma_separator_extent(tokens: Seq<TokenView>, from: int, anchor: Span)
    requires
        0 <= from <= tokens.len(),
    ensures
        separator_spec(tokens, from, anchor) matches Ok((_, next)) ==> {
            &&& from < next <= tokens.len()
            &&& is_punct(tokens[next - 1], '*')
            &&& forall|k: int| from <= k < next - 1 ==> !is_punct(#[trigger] tokens[k], '*')
        },
{
    lemma_closing_star_bounds(tokens, from);
}

/// A separator that no `*` closes is rejected, with what is wrong in it or
/// else as unterminated: it is never read without error.
pub proof fn lemma_separator_needs_star(tokens: Seq<TokenView>, from: int, anchor: Span)
    requires
        0 <= from <= tokens.len(),
        forall|k: int| from <= k < tokens.len() ==> !is_punct(#[trigger] tokens[k], '*'),
    ensures
        separator_spec(tokens, from, anchor) is Err,
{
    lemma_closing_star_bounds(tokens, from);
}

/// A repetition is rejected wherever it is met in the body of another
/// repetition or in a separator, whatever stands around it: with what is
/// wrong in its own separator, or as unterminated, or else as nested.
pub proof fn lemma_repetition_rejected(
    tokens: Seq<TokenView>,
    pos: int,
    end: int,
    mode: Mode,
    program: Seq<InstructionView>,
    names: Seq<IdentView>,
)
    requires
        0 <= pos < end <= tokens.len(),
        tokens[pos] matches TokenView::Punct { ch, .. } && marker(ch, tokens, pos + 1) is Repetition,
        !(mode is Plain),
    ensures
        walk(tokens, pos, end, mode, program, names) is Err,
{
}

} // verus!
