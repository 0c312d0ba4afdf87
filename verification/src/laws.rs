//! What holds of every template, proved from the grammar.

pub mod errors;
pub mod plain;
pub mod programs;
pub mod separators;
pub mod shapes;
