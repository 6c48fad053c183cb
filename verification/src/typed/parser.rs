//! What a parser reports, and the diagnostics that come of it.

use crate::typed::syntax::Span;
use crate::typed::util::{is_position_of, Position, PositionTranslator};
use vstd::prelude::*;

verus! {

/// What went wrong when a text was parsed, with the offsets at which it
/// went wrong.
#[derive(Clone, Copy, Debug, PartialEq, Eq, Structural)]
pub enum ParseFault {
    /// A token that the lexer does not know, with the offset of its end.
    InvalidToken { location: usize },
    /// The text ended where more was expected.
    UnrecognizedEof { location: usize },
    /// A token that does not fit where it stands.
    UnrecognizedToken { start: usize, end: usize },
    /// A token after the end of what was parsed.
    ExtraToken { start: usize, end: usize },
    /// An error of the grammar's own.
    User,
}

impl ParseFault {
    /// The offsets that the fault is reported at; none for an error of the
    /// grammar's own.
    pub open spec fn offsets(self) -> Option<Span> {
        match self {
            ParseFault::InvalidToken { location } => Some(Span { start: location, end: location }),
            ParseFault::UnrecognizedEof { location } => Some(
                Span { start: location, end: location },
            ),
            ParseFault::UnrecognizedToken { start, end } => Some(Span { start, end }),
            ParseFault::ExtraToken { start, end } => Some(Span { start, end }),
            ParseFault::User => None,
        }
    }

    /// The positions between which the fault is reported: those of its
    /// offsets, or the first position of the text for an error of the
    /// grammar's own.
    pub fn span(&self, translator: &PositionTranslator) -> (span: Span<Position>)
        ensures
            match self.offsets() {
                Some(offsets) => is_position_of(translator@, offsets.start, span.start)
                    && is_position_of(translator@, offsets.end, span.end),
                None => span.start == Position::new_spec(0, 0) && span.end == Position::new_spec(
                    0,
                    0,
                ),
            },
    {
        match self {
            ParseFault::InvalidToken { location } | ParseFault::UnrecognizedEof { location } => {
                translator.span(Span { start: *location, end: *location })
            },
            ParseFault::UnrecognizedToken { start, end } | ParseFault::ExtraToken { start, end } => {
                translator.span(Span { start: *start, end: *end })
            },
            ParseFault::User => Span { start: Position::origin(), end: Position::origin() },
        }
    }
}

/// The faults that are reported for a text: every fault that the parser
/// recovered from if it came to an end, and else the first of those, or
/// the fault that stopped it if it recovered from none.
pub open spec fn reported<T>(recovered: Seq<T>, fatal: Option<T>) -> Seq<T> {
    match fatal {
        None => recovered,
        Some(fatal) => if recovered.len() > 0 {
            seq![recovered[0]]
        } else {
            seq![fatal]
        },
    }
}

/// Computes `reported`.
pub fn reported_faults<T>(recovered: Vec<T>, fatal: Option<T>) -> (faults: Vec<T>)
    ensures
        faults@ == reported(recovered@, fatal),
{
    match fatal {
        None => recovered,
        Some(fatal) => {
            let ghost all = recovered@;
            let mut rest = recovered;
            let mut faults: Vec<T> = Vec::new();
            if rest.len() > 0 {
                faults.push(rest.swap_remove(0));
            } else {
                faults.push(fatal);
            }
            assert(faults@ =~= reported(all, Some(fatal)));
            faults
        },
    }
}

} // verus!
