//! The state of one cell, and the rule by which it changes.

use vstd::prelude::*;

verus! {

/// One cell of the grid.
#[derive(Clone, Copy, Debug, PartialEq, Eq, Structural)]
pub enum Cell {
    Dead,
    Alive,
}

/// The state that a cell in state `cell` with `live_neighbors` live cells
/// around it has in the next generation: a live cell survives with two or
/// three live neighbours, a dead cell comes alive with exactly three, and
/// every other cell is dead.
pub open spec fn next_state(cell: Cell, live_neighbors: int) -> Cell {
    match cell {
        Cell::Alive => if live_neighbors == 2 || live_neighbors == 3 {
            Cell::Alive
        } else {
            Cell::Dead
        },
        Cell::Dead => if live_neighbors == 3 {
            Cell::Alive
        } else {
            Cell::Dead
        },
    }
}

/// The glyph that stands for a cell in rendered text.
pub open spec fn glyph(cell: Cell) -> char {
    match cell {
        Cell::Dead => '\u{25FB}',
        Cell::Alive => '\u{25FC}',
    }
}

impl Cell {
    /// 1 for a live cell, 0 for a dead one.
    pub open spec fn weight(self) -> int {
        if self == Cell::Alive {
            1
        } else {
            0
        }
    }

    /// What the cell adds to a count of live cells.
    pub fn count(self) -> (n: u8)
        ensures
            n == self.weight(),
    {
        match self {
            Cell::Alive => 1,
            Cell::Dead => 0,
        }
    }

    /// The cell's state in the next generation, given the number of live
    /// cells among its eight neighbours.
    pub fn next(self, live_neighbors: u8) -> (next: Cell)
        ensures
            next == next_state(self, live_neighbors as int),
    {
        match self {
            Cell::Alive => {
                if live_neighbors < 2 {
                    // underpopulation
                    Cell::Dead
                } else if live_neighbors <= 3 {
                    Cell::Alive
                } else {
                    // overpopulation
                    Cell::Dead
                }
            },
            Cell::Dead => {
                if live_neighbors == 3 {
                    // reproduction
                    Cell::Alive
                } else {
                    Cell::Dead
                }
            },
        }
    }

    /// The glyph that stands for the cell in rendered text.
    pub fn symbol(self) -> (c: char)
        ensures
            c == glyph(self),
    {
        match self {
            Cell::Dead => '\u{25FB}',
            Cell::Alive => '\u{25FC}',
        }
    }
}

} // verus!
