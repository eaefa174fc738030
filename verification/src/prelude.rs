//! Positions in the text and on the screen.
use vstd::prelude::*;

verus! {

/// A position in a text: a line and a grapheme within it. The preferred
/// grapheme index is the column the caret returns to when it moves through
/// shorter lines.
#[derive(Copy, Clone, Default, Eq, PartialEq, Structural, Debug)]
pub struct Location {
    pub grapheme_idx: usize,
    pub line_idx: usize,
    pub preferred_grapheme_idx: usize,
}

/// A position on the screen.
#[derive(Copy, Clone, Default, Eq, PartialEq, Structural, Debug)]
pub struct Position {
    pub col: usize,
    pub row: usize,
}

/// A size on the screen.
#[derive(Copy, Clone, Default, Eq, PartialEq, Structural, Debug)]
pub struct Size {
    pub height: usize,
    pub width: usize,
}

/// Text order on locations: by line, then by grapheme.
pub open spec fn location_le(a: Location, b: Location) -> bool {
    a.line_idx < b.line_idx || (a.line_idx == b.line_idx && a.grapheme_idx <= b.grapheme_idx)
}

impl Location {
    /// Whether `self` comes no later than `other` in the text.
    pub fn is_before_or_at(&self, other: &Location) -> (r: bool)
        ensures
            r == location_le(*self, *other),
    {
        self.line_idx < other.line_idx || (self.line_idx == other.line_idx
            && self.grapheme_idx <= other.grapheme_idx)
    }
}

impl Position {
    /// Component-wise saturating subtraction.
    pub fn saturating_sub(self, other: Position) -> (r: Position)
        ensures
            r.col == (if self.col >= other.col { self.col - other.col } else { 0 }),
            r.row == (if self.row >= other.row { self.row - other.row } else { 0 }),
    {
        Position { col: self.col.saturating_sub(other.col), row: self.row.saturating_sub(other.row) }
    }
}

} // verus!
