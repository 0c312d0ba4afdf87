//! The compiler behind a `quote!`-style macro: it turns a token template into
//! the program that rebuilds the template's tokens, with `#name` and
//! `#( ... ) sep *` markers replaced by interpolations and loops.

pub mod span;
pub mod tokens;
pub mod literal;
pub mod program;
pub mod error;
pub mod grammar;
pub mod compile;
pub mod laws;

pub use compile::quote;
