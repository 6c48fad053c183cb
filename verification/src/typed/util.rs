//! Positions in a source text by line and column.

use crate::humanizer::{as_ints, increasing, is_line_of, line_of, line_starts, line_starts_of};
use crate::text::{position_string, position_text};
use crate::typed::syntax::Span;
use vstd::prelude::*;
use vstd::string::StringSliceAdditionalSpecFns;

verus! {

/// A line and a column, both counted from zero.
#[derive(Clone, Copy, Debug, Eq, PartialEq, Structural)]
pub struct Position {
    pub line: usize,
    pub column: usize,
}

impl Position {
    pub open spec fn new_spec(line: usize, column: usize) -> Position {
        Position { line, column }
    }

    #[verifier::when_used_as_spec(new_spec)]
    pub fn new(line: usize, column: usize) -> (r: Self)
        ensures
            r == Self::new_spec(line, column),
    {
        Self { line, column }
    }

    /// The position as a reader sees it, with line and column counted from
    /// one.
    pub fn to_text(&self) -> (text: String)
        requires
            self.line < u64::MAX,
            self.column < u64::MAX,
        ensures
            text@ == position_text(self.line as nat, self.column as nat),
    {
        position_string(self.line as u64, self.column as u64)
    }

    /// The first position of a text.
    pub fn origin() -> (r: Self)
        ensures
            r == Self::new_spec(0, 0),
    {
        Self::new(0, 0)
    }
}

/// The accumulated line starts of a text, by which offsets are translated
/// to positions.
pub struct PositionTranslator {
    line_starts: Vec<usize>,
}

/// Whether `position` is the line that the offset `index` lies on and the
/// distance of `index` from the start of that line.
pub open spec fn is_position_of(starts: Seq<usize>, index: usize, position: Position) -> bool {
    &&& is_line_of(starts, index, position.line as int)
    &&& position.column == index - starts[position.line as int]
}

impl PositionTranslator {
    /// The line starts of the text.
    pub closed spec fn view(&self) -> Seq<usize> {
        self.line_starts@
    }

    #[verifier::type_invariant]
    spec fn well_formed(&self) -> bool {
        &&& self.line_starts@.len() > 0
        &&& self.line_starts@[0] == 0
        &&& increasing(self.line_starts@)
    }

    /// Records the line starts of `input`.
    pub fn new(input: &str) -> (translator: Self)
        requires
            input.spec_bytes().len() < usize::MAX,
        ensures
            as_ints(translator@) == line_starts(input.spec_bytes()),
    {
        Self { line_starts: line_starts_of(input) }
    }

    /// The recorded line starts.
    pub fn line_starts(&self) -> (starts: &Vec<usize>)
        ensures
            starts@ == self@,
    {
        &self.line_starts
    }

    /// The position of the offset `index`.
    pub fn position(&self, index: usize) -> (position: Position)
        ensures
            is_position_of(self@, index, position),
    {
        proof {
            use_type_invariant(self);
        }
        let line = line_of(&self.line_starts, index);
        Position::new(line, index - self.line_starts[line])
    }

    /// The positions of the two ends of `span`.
    pub fn span(&self, span: Span<usize>) -> (r: Span<Position>)
        ensures
            is_position_of(self@, span.start, r.start),
            is_position_of(self@, span.end, r.end),
    {
        Span { start: self.position(span.start), end: self.position(span.end) }
    }
}

} // verus!
