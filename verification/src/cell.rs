//! The state of a single cell and the rule that decides its next state.

use vstd::prelude::*;

verus! {

/// The glyph of a live cell, a filled square.
pub const ALIVE_GLYPH: char = '\u{25FC}';

/// The glyph of a dead cell, a hollow square.
pub const DEAD_GLYPH: char = '\u{25FB}';

/// One cell of the grid: it is either dead or alive and carries nothing else.
#[derive(Clone, Copy, Debug, PartialEq, Eq, Structural)]
pub enum Cell {
    Dead,
    Alive,
}

impl Cell {
    /// The next state of a cell under B3/S23, given how many of its eight
    /// neighbours are alive.
    ///
    /// A live cell survives with two or three live neighbours and dies
    /// otherwise; a dead cell is born with exactly three and stays dead
    /// otherwise.
    pub open spec fn next(self, live_neighbors: int) -> Cell {
        match self {
            Cell::Alive => if live_neighbors == 2 || live_neighbors == 3 {
                Cell::Alive
            } else {
                Cell::Dead
            },
            Cell::Dead => if live_neighbors == 3 {
                Cell::Alive
            } else {
                Cell::Dead
            },
        }
    }

    /// The cell that a stored bit stands for: a set bit is a live cell.
    pub open spec fn of_bit(bit: bool) -> Cell {
        if bit {
            Cell::Alive
        } else {
            Cell::Dead
        }
    }

    /// The glyph that stands for the cell in text.
    pub open spec fn glyph(self) -> char {
        match self {
            Cell::Alive => ALIVE_GLYPH,
            Cell::Dead => DEAD_GLYPH,
        }
    }

    /// The cell that a stored bit stands for.
    pub fn from_bit(bit: bool) -> (cell: Cell)
        ensures
            cell == Cell::of_bit(bit),
    {
        if bit {
            Cell::Alive
        } else {
            Cell::Dead
        }
    }

    /// Whether the cell is alive.
    pub fn is_alive(self) -> (alive: bool)
        ensures
            alive == (self is Alive),
    {
        match self {
            Cell::Alive => true,
            Cell::Dead => false,
        }
    }
}

/// Applies the B3/S23 rule to one cell.
pub fn next_state(current: Cell, live_neighbors: u8) -> (next: Cell)
    ensures
        next == current.next(live_neighbors as int),
{
    match current {
        Cell::Alive => {
            if live_neighbors < 2 {
                Cell::Dead
            } else if live_neighbors <= 3 {
                Cell::Alive
            } else {
                Cell::Dead
            }
        },
        Cell::Dead => {
            if live_neighbors == 3 {
                Cell::Alive
            } else {
                Cell::Dead
            }
        },
    }
}

} // verus!
