//! Places in the text.
use vstd::prelude::*;

use crate::terminal::Position;

verus! {

/// A place in the text: which line, and which grapheme within that line.
#[derive(Copy, Clone, Debug, PartialEq, Eq, Structural)]
pub struct Location {
    pub grapheme_index: usize,
    pub line_index: usize,
}

/// `a - b`, floored at zero.
pub open spec fn saturating_sub_spec(a: usize, b: usize) -> usize {
    if a >= b { (a - b) as usize } else { 0 }
}

impl Default for Location {
    /// The start of the first line.
    fn default() -> (r: Self)
        ensures
            r == (Location { grapheme_index: 0, line_index: 0 }),
    {
        Location { grapheme_index: 0, line_index: 0 }
    }
}

impl Location {
    /// The location at the origin of the text.
    pub fn origin() -> (r: Location)
        ensures
            r.grapheme_index == 0,
            r.line_index == 0,
    {
        Location { grapheme_index: 0, line_index: 0 }
    }

    /// Component-wise difference, each component floored at zero.
    pub fn subtract(&self, other: &Self) -> (r: Self)
        ensures
            r.grapheme_index == saturating_sub_spec(self.grapheme_index, other.grapheme_index),
            r.line_index == saturating_sub_spec(self.line_index, other.line_index),
    {
        Location {
            grapheme_index: self.grapheme_index.saturating_sub(other.grapheme_index),
            line_index: self.line_index.saturating_sub(other.line_index),
        }
    }
}

impl From<Location> for Position {
    /// The screen position with the location's grapheme index as column and
    /// its line index as row.
    fn from(loc: Location) -> (r: Self) {
        Self { col: loc.grapheme_index, row: loc.line_index }
    }
}

impl vstd::std_specs::convert::FromSpecImpl<Location> for Position {
    open spec fn obeys_from_spec() -> bool {
        true
    }

    open spec fn from_spec(loc: Location) -> Position {
        Position { col: loc.grapheme_index, row: loc.line_index }
    }
}

} // verus!
