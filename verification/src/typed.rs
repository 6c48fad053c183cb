//! The typed surface language: its syntax, source locations, diagnostics
//! and the bidirectional type checker.

pub mod check;
pub mod diagnostic;
pub mod iter;
pub mod location;
pub mod parser;
pub mod syntax;
pub mod util;
