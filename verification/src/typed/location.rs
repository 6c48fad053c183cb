//! Locations in a source text and values that carry one.

use crate::text::{position_string, position_text};
use vstd::prelude::*;
use vstd::string::StringExecFns;

verus! {

/// A byte offset as the parser counts it.
#[derive(Clone, Copy, Debug, Default, Eq, PartialEq, PartialOrd, Ord, Structural)]
pub struct ParserLoc(pub u32);

/// A line and a column, both counted from zero.
#[derive(Clone, Copy, Debug, Default, Eq, PartialEq, Structural)]
pub struct HumanLoc {
    pub line: u32,
    pub column: u32,
}

#[derive(Clone, Copy, Debug, Default)]
pub struct Span<Loc> {
    pub start: Loc,
    pub end: Loc,
}

#[derive(Clone, Copy, Debug)]
pub struct Located<T, Loc> {
    pub locatee: T,
    pub span: Span<Loc>,
}

impl ParserLoc {
    /// The location at offset `loc`, cut to 32 bits.
    pub fn from_usize(loc: usize) -> (r: Self)
        ensures
            r.0 == loc as u32,
    {
        Self(
            #[verifier::truncate]
            (loc as u32),
        )
    }
}

impl HumanLoc {
    pub fn new(line: u32, column: u32) -> (r: Self)
        ensures
            r.line == line,
            r.column == column,
    {
        Self { line, column }
    }
}

impl HumanLoc {
    /// The location as a reader sees it, with line and column counted from
    /// one.
    pub fn to_text(&self) -> (text: String)
        ensures
            text@ == position_text(self.line as nat, self.column as nat),
    {
        position_string(self.line as u64, self.column as u64)
    }
}

impl Span<HumanLoc> {
    /// The two ends of the span as a reader sees them, with a hyphen
    /// between them.
    pub fn to_text(&self) -> (text: String)
        ensures
            text@ == position_text(self.start.line as nat, self.start.column as nat) + "-"@
                + position_text(self.end.line as nat, self.end.column as nat),
    {
        let mut text = self.start.to_text();
        text.append("-");
        text.append(self.end.to_text().as_str());
        text
    }
}

impl<T, Loc> Located<T, Loc> {
    pub fn new(locatee: T, span: Span<Loc>) -> (r: Self)
        ensures
            r.locatee == locatee,
            r.span == span,
    {
        Self { locatee, span }
    }

    /// Applies `f` to the located value and keeps the span.
    pub fn map<U, F: FnOnce(T) -> U>(self, f: F) -> (r: Located<U, Loc>)
        requires
            call_requires(f, (self.locatee,)),
        ensures
            call_ensures(f, (self.locatee,), r.locatee),
            r.span == self.span,
    {
        Located::new(f(self.locatee), self.span)
    }
}

impl<T, Loc: Copy> Located<T, Loc> {
    /// A reference to the located value with a copy of the span.
    pub fn as_ref(&self) -> (r: Located<&T, Loc>)
        ensures
            *r.locatee == self.locatee,
            r.span == self.span,
    {
        Located { locatee: &self.locatee, span: self.span }
    }
}

impl<T, Loc: Default> Located<T, Loc> {
    /// `locatee` with a span made of default locations.
    pub fn gen(locatee: T) -> (r: Self)
        ensures
            r.locatee == locatee,
            call_ensures(Loc::default, (), r.span.start),
            call_ensures(Loc::default, (), r.span.end),
    {
        Self::new(locatee, Span { start: Loc::default(), end: Loc::default() })
    }
}

impl<Pos> Span<Pos> {
    /// Applies `f` to the start and then to the end.
    pub fn map<Pos2, F: Fn(Pos) -> Pos2>(self, f: F) -> (r: Span<Pos2>)
        requires
            call_requires(f, (self.start,)),
            call_requires(f, (self.end,)),
        ensures
            call_ensures(f, (self.start,), r.start),
            call_ensures(f, (self.end,), r.end),
    {
        Span { start: f(self.start), end: f(self.end) }
    }
}

} // verus!
