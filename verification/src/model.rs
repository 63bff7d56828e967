//! The mathematical model: a grid as a row-major sequence of cells on a torus,
//! and what one generation makes of it.

use vstd::prelude::*;
use crate::cell::{next_state, Cell};

verus! {

/// The shortest side a grid may have.
pub const MIN_SIDE: u32 = 2;

/// The longest side a grid may have.
pub const MAX_SIDE: u32 = 1024;

/// Whether `n` cells are an acceptable length for a side of the grid.
pub open spec fn valid_side(n: int) -> bool {
    MIN_SIDE <= n <= MAX_SIDE
}

/// A grid of `height` rows of `width` cells each. The cell in row `row` and
/// column `col` stands at index `row * width + col` of `cells`.
pub struct Grid {
    pub width: int,
    pub height: int,
    pub cells: Seq<Cell>,
}

impl Grid {
    /// Both sides have an acceptable length, and there is one cell for each
    /// pair of a row and a column.
    pub open spec fn wf(self) -> bool {
        &&& valid_side(self.width)
        &&& valid_side(self.height)
        &&& self.cells.len() == self.width * self.height
    }

    /// Whether the grid has a row `row` and a column `col`.
    pub open spec fn has(self, row: int, col: int) -> bool {
        0 <= row < self.height && 0 <= col < self.width
    }

    /// The index of the cell in row `row` and column `col`.
    pub open spec fn index(self, row: int, col: int) -> int {
        row * self.width + col
    }

    /// The cell in row `row` and column `col`.
    pub open spec fn cell(self, row: int, col: int) -> Cell {
        self.cells[self.index(row, col)]
    }

    /// The cell reached at `row`, `col` on the torus: a row or a column
    /// outside the grid is taken modulo the grid's height or width, so that
    /// each edge continues at the opposite edge.
    pub open spec fn torus_cell(self, row: int, col: int) -> Cell {
        self.cell(row % self.height, col % self.width)
    }

    /// The number of live cells among the eight cells around `row`, `col`,
    /// each of them reached on the torus.
    pub open spec fn live_neighbors(self, row: int, col: int) -> int {
        self.torus_cell(row - 1, col - 1).weight() + self.torus_cell(row - 1, col).weight()
            + self.torus_cell(row - 1, col + 1).weight() + self.torus_cell(row, col - 1).weight()
            + self.torus_cell(row, col + 1).weight() + self.torus_cell(row + 1, col - 1).weight()
            + self.torus_cell(row + 1, col).weight() + self.torus_cell(row + 1, col + 1).weight()
    }

    /// The state in the next generation of the cell at index `i`.
    pub open spec fn next_cell(self, i: int) -> Cell {
        next_state(self.cells[i], self.live_neighbors(i / self.width, i % self.width))
    }

    /// The next generation: every cell changes at once, each by the rule and
    /// by its neighbours in this generation.
    pub open spec fn step(self) -> Grid {
        Grid {
            width: self.width,
            height: self.height,
            cells: Seq::new(self.cells.len(), |i: int| self.next_cell(i)),
        }
    }

    /// The grid after `n` generations.
    pub open spec fn generations(self, n: nat) -> Grid
        decreases n,
    {
        if n == 0 {
            self
        } else {
            self.generations((n - 1) as nat).step()
        }
    }

    /// Whether every pair of `coords`, read as a row and a column, names a
    /// cell of the grid.
    pub open spec fn holds(self, coords: Seq<(u32, u32)>) -> bool {
        forall|k: int| 0 <= k < coords.len() ==> self.has(#[trigger] coords[k].0 as int, coords[k].1 as int)
    }

    /// Whether one of the pairs of `coords` names the cell at index `i`.
    pub open spec fn names(self, coords: Seq<(u32, u32)>, i: int) -> bool {
        exists|k: int| 0 <= k < coords.len() && self.index(#[trigger] coords[k].0 as int, coords[k].1 as int) == i
    }

    /// The grid with the cells that `coords` names alive, and every other
    /// cell as it was.
    pub open spec fn stamp(self, coords: Seq<(u32, u32)>) -> Grid {
        Grid {
            width: self.width,
            height: self.height,
            cells: Seq::new(
                self.cells.len(),
                |i: int| if self.names(coords, i) {
                    Cell::Alive
                } else {
                    self.cells[i]
                },
            ),
        }
    }
}

/// Stamping one pair more makes the cell that the pair names alive, on top of
/// what the pairs before it did.
pub proof fn lemma_stamp_extend(grid: Grid, coords: Seq<(u32, u32)>, k: int)
    requires
        0 <= k < coords.len(),
        0 <= grid.index(coords[k].0 as int, coords[k].1 as int) < grid.cells.len(),
    ensures
        grid.stamp(coords.take(k + 1)).cells == grid.stamp(coords.take(k)).cells.update(
            grid.index(coords[k].0 as int, coords[k].1 as int),
            Cell::Alive,
        ),
{
    let before = coords.take(k);
    let after = coords.take(k + 1);
    let idx = grid.index(coords[k].0 as int, coords[k].1 as int);
    assert forall|i: int| 0 <= i < grid.cells.len() implies grid.names(after, i) == (grid.names(
        before,
        i,
    ) || i == idx) by {
        if grid.names(after, i) {
            let j = choose|j: int|
                0 <= j < after.len() && grid.index(#[trigger] after[j].0 as int, after[j].1 as int)
                    == i;
            if j < k {
                assert(before[j] == after[j]);
                assert(grid.index(before[j].0 as int, before[j].1 as int) == i);
            }
        }
        if grid.names(before, i) {
            let j = choose|j: int|
                0 <= j < before.len() && grid.index(
                    #[trigger] before[j].0 as int,
                    before[j].1 as int,
                ) == i;
            assert(after[j] == before[j]);
            assert(grid.index(after[j].0 as int, after[j].1 as int) == i);
        }
        if i == idx {
            assert(after[k] == coords[k]);
            assert(grid.index(after[k].0 as int, after[k].1 as int) == i);
        }
    }
    assert(grid.stamp(after).cells =~= grid.stamp(before).cells.update(idx, Cell::Alive));
}

/// The state in which a new grid holds the cell at index `i`: alive where `i`
/// is a multiple of 2 or of 7.
pub open spec fn seed_cell(i: int) -> Cell {
    if i % 2 == 0 || i % 7 == 0 {
        Cell::Alive
    } else {
        Cell::Dead
    }
}

/// The grid that a new universe of the given sides holds.
pub open spec fn seeded(width: int, height: int) -> Grid {
    Grid { width, height, cells: Seq::new((width * height) as nat, |i: int| seed_cell(i)) }
}

/// The grid of the given sides with every cell dead.
pub open spec fn blank(width: int, height: int) -> Grid {
    Grid { width, height, cells: Seq::new((width * height) as nat, |i: int| Cell::Dead) }
}

} // verus!
