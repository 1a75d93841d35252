//! The two-valued cell state and the per-cell transition rule.

use vstd::prelude::*;

verus! {

/// State of a single grid cell.
#[derive(Clone, Copy, Debug, PartialEq, Eq, Structural)]
pub enum Cell {
    Dead,
    Alive,
}

impl Cell {
    /// The opposite state.
    pub open spec fn flipped(self) -> Cell {
        match self {
            Cell::Dead => Cell::Alive,
            Cell::Alive => Cell::Dead,
        }
    }

    /// Flip this cell between `Dead` and `Alive`.
    pub fn toggle(&mut self)
        ensures
            *final(self) == old(self).flipped(),
    {
        *self = match *self {
            Cell::Dead => Cell::Alive,
            Cell::Alive => Cell::Dead,
        };
    }
}

/// The Game of Life transition rule for one cell, given its current state and
/// the number of live cells among its eight neighbors:
/// a live cell survives with two or three live neighbors and otherwise dies
/// (underpopulation or overpopulation); a dead cell comes alive with exactly
/// three live neighbors and otherwise stays dead.
pub open spec fn next_state(cur: Cell, live_neighbors: int) -> Cell {
    match cur {
        Cell::Alive => if 2 <= live_neighbors <= 3 {
            Cell::Alive
        } else {
            Cell::Dead
        },
        Cell::Dead => if live_neighbors == 3 {
            Cell::Alive
        } else {
            Cell::Dead
        },
    }
}

} // verus!
