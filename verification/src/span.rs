//! Source locations. The compiler never looks inside a span: it copies spans
//! from template tokens to the instructions and diagnostics it emits.

use vstd::prelude::*;

verus! {

/// `proc_macro2::Span`, taken as an opaque handle. Nothing is claimed of it:
/// two spans are the same value or they are not.
#[verifier::external_type_specification]
#[verifier::external_body]
pub struct ExSpan(proc_macro2::Span);

} // verus!
