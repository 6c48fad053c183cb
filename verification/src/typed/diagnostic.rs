//! What the parser and the checker report about a source text.

use crate::typed::location::{HumanLoc, Span};
use vstd::prelude::*;

verus! {

#[derive(Debug)]
pub enum Severity {
    Warning,
    Error,
}

#[derive(Debug)]
pub enum Source {
    Parser,
    Checker,
}

#[derive(Debug)]
pub struct Diagnostic {
    pub span: Span<HumanLoc>,
    pub severity: Severity,
    pub source: Source,
    pub message: String,
}

impl Source {
    /// The name under which a source of diagnostics is reported.
    pub open spec fn spec_name(&self) -> Seq<char> {
        match self {
            Source::Parser => "parser"@,
            Source::Checker => "checker"@,
        }
    }

    pub fn name(&self) -> (name: &'static str)
        ensures
            name@ == self.spec_name(),
    {
        match self {
            Source::Parser => "parser",
            Source::Checker => "checker",
        }
    }
}

} // verus!
