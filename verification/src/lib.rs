//! A small functional language.
//!
//! - `syntax`, `cek`: the untyped core calculus and the CEK machine that
//!   evaluates its indexed expressions without recursing on the host stack.
//! - `humanizer`: byte offsets of a source text as lines and columns.
//! - `typed`: the typed surface language with its bidirectional checker.
//! - `proto`: the first calculus, with a machine and a recursive evaluator.
//! - `text`: numbers as decimal text.

pub mod cek;
pub mod humanizer;
pub mod proto;
pub mod syntax;
pub mod text;
pub mod typed;
