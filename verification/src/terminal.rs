//! Terminal geometry: the size of the screen, a place on it, and how both
//! are fitted to the terminal's 16-bit coordinates.
use vstd::prelude::*;

verus! {

/// The size of the terminal in rows and columns.
#[derive(Copy, Clone, Debug, PartialEq, Eq, Structural)]
pub struct Size {
    pub height: usize,
    pub width: usize,
}

/// A place on the screen: column and row.
#[derive(Copy, Clone, Debug, PartialEq, Eq, Structural)]
pub struct Position {
    pub col: usize,
    pub row: usize,
}

impl Default for Size {
    /// No rows and no columns.
    fn default() -> (r: Self)
        ensures
            r == (Size { height: 0, width: 0 }),
    {
        Size { height: 0, width: 0 }
    }
}

impl Default for Position {
    /// The top left corner.
    fn default() -> (r: Self)
        ensures
            r == (Position { col: 0, row: 0 }),
    {
        Position { col: 0, row: 0 }
    }
}

/// `n` as a terminal coordinate: `u16::MAX` where it is larger.
pub open spec fn coordinate(n: usize) -> u16 {
    if n > u16::MAX {
        u16::MAX
    } else {
        n as u16
    }
}

/// The terminal. Reading and writing it is done by the program around this
/// library; the coordinate arithmetic is done here. Coordinates span at most
/// `u16::MAX` rows and columns: larger ones are cut to `u16::MAX`.
pub struct Terminal;

impl Terminal {
    /// The terminal coordinates (column, row) that the caret is moved to for
    /// `position`, each cut to `u16::MAX`.
    pub fn caret_coordinates(position: Position) -> (r: (u16, u16))
        ensures
            r.0 == coordinate(position.col),
            r.1 == coordinate(position.row),
    {
        let col = if position.col > 0xffff {
            0xffff
        } else {
            position.col as u16
        };
        let row = if position.row > 0xffff {
            0xffff
        } else {
            position.row as u16
        };
        (col, row)
    }

    /// The size of a terminal that reports `width` columns and `height` rows.
    pub fn size_from(width: u16, height: u16) -> (r: Size)
        ensures
            r == (Size { height: height as usize, width: width as usize }),
    {
        Size { height: height as usize, width: width as usize }
    }
}

} // verus!
