//! The first calculus of the language: numbers, the four arithmetic
//! operators, functions and `let`, with a CEK machine and a recursive
//! evaluator for it.

pub mod cek;
pub mod eval;
pub mod syntax;
