//! The executable grid.

use vstd::prelude::*;
use crate::arith::{lemma_index_in_range, lemma_index_split, lemma_wrap_step};
use crate::cell::Cell;
use crate::error::GridError;
use crate::model::{blank, lemma_stamp_extend, seed_cell, seeded, valid_side, Grid, MAX_SIDE, MIN_SIDE};
use crate::render::{render_cells, text};

verus! {

/// A grid of cells on a torus. Its sides are between 2 and 1024 cells long for
/// as long as it lives, and it holds one cell for each row and column.
pub struct Universe {
    width: u32,
    height: u32,
    cells: Vec<Cell>,
}

impl View for Universe {
    type V = Grid;

    closed spec fn view(&self) -> Grid {
        Grid { width: self.width as int, height: self.height as int, cells: self.cells@ }
    }
}

/// The cells of a new grid: `count` cells, each in the state that its index
/// gives it.
fn seed_cells(count: u32) -> (cells: Vec<Cell>)
    ensures
        cells@ == Seq::new(count as nat, |i: int| seed_cell(i)),
{
    let mut cells: Vec<Cell> = Vec::new();
    let mut i: u32 = 0;
    while i < count
        invariant
            i <= count,
            cells@ == Seq::new(i as nat, |j: int| seed_cell(j)),
        decreases count - i,
    {
        let cell = if i % 2 == 0 || i % 7 == 0 {
            Cell::Alive
        } else {
            Cell::Dead
        };
        cells.push(cell);
        i += 1;
        assert(cells@ =~= Seq::new(i as nat, |j: int| seed_cell(j)));
    }
    cells
}

/// `count` dead cells.
fn dead_cells(count: u32) -> (cells: Vec<Cell>)
    ensures
        cells@ == Seq::new(count as nat, |i: int| Cell::Dead),
{
    let mut cells: Vec<Cell> = Vec::new();
    let mut i: u32 = 0;
    while i < count
        invariant
            i <= count,
            cells@ == Seq::new(i as nat, |j: int| Cell::Dead),
        decreases count - i,
    {
        cells.push(Cell::Dead);
        i += 1;
        assert(cells@ =~= Seq::new(i as nat, |j: int| Cell::Dead));
    }
    cells
}

impl Universe {
    #[verifier::type_invariant]
    spec fn inv(self) -> bool {
        self@.wf()
    }

    /// The index of the cell in row `row` and column `col`.
    fn get_index(&self, row: u32, col: u32) -> (idx: usize)
        requires
            self@.has(row as int, col as int),
        ensures
            idx == self@.index(row as int, col as int),
            idx < self@.cells.len(),
    {
        proof {
            use_type_invariant(self);
            lemma_index_in_range(row as int, col as int, self.width as int, self.height as int);
            assert(self.width * self.height <= 1024 * 1024) by (nonlinear_arith)
                requires
                    0 <= self.width <= 1024,
                    0 <= self.height <= 1024,
            ;
            assert(0 <= row * self.width) by (nonlinear_arith)
                requires
                    0 <= row,
                    0 <= self.width,
            ;
        }
        (row * self.width + col) as usize
    }

    /// The cell in row `row` and column `col`.
    fn cell(&self, row: u32, col: u32) -> (cell: Cell)
        requires
            self@.has(row as int, col as int),
        ensures
            cell == self@.cell(row as int, col as int),
    {
        let idx = self.get_index(row, col);
        self.cells[idx]
    }

    /// The number of live cells among the eight cells around `row`, `col`.
    /// The row above the first is the last, the column left of the first is
    /// the last, and the other way round.
    pub fn live_neighbor_count(&self, row: u32, col: u32) -> (count: u8)
        requires
            self@.has(row as int, col as int),
        ensures
            count == self@.live_neighbors(row as int, col as int),
            count <= 8,
    {
        proof {
            use_type_invariant(self);
            lemma_wrap_step(row - 1, self.height as int);
            lemma_wrap_step(row as int, self.height as int);
            lemma_wrap_step(row + 1, self.height as int);
            lemma_wrap_step(col - 1, self.width as int);
            lemma_wrap_step(col as int, self.width as int);
            lemma_wrap_step(col + 1, self.width as int);
        }
        let north = (row + (self.height - 1)) % self.height;
        let south = (row + 1) % self.height;
        let west = (col + (self.width - 1)) % self.width;
        let east = (col + 1) % self.width;
        self.cell(north, west).count() + self.cell(north, col).count() + self.cell(
            north,
            east,
        ).count() + self.cell(row, west).count() + self.cell(row, east).count() + self.cell(
            south,
            west,
        ).count() + self.cell(south, col).count() + self.cell(south, east).count()
    }

    /// A grid of `w` columns and `h` rows in its first state: the cell at
    /// index `i` is alive where `i` is a multiple of 2 or of 7.
    pub fn new(w: u32, h: u32) -> (universe: Universe)
        requires
            valid_side(w as int),
            valid_side(h as int),
        ensures
            universe@ == seeded(w as int, h as int),
            universe@.wf(),
    {
        assert(w * h <= 1024 * 1024) by (nonlinear_arith)
            requires
                0 <= w <= 1024,
                0 <= h <= 1024,
        ;
        let cells = seed_cells(w * h);
        Universe { width: w, height: h, cells }
    }

    /// As `new`, but a side outside 2 ..= 1024 is an error and no grid is
    /// made.
    pub fn try_new(w: u32, h: u32) -> (made: Result<Universe, GridError>)
        ensures
            valid_side(w as int) && valid_side(h as int) ==> made is Ok && made->Ok_0@ == seeded(
                w as int,
                h as int,
            ),
            !(valid_side(w as int) && valid_side(h as int)) ==> made == Err::<Universe, GridError>(
                GridError::InvalidDimension,
            ),
    {
        if w < MIN_SIDE || h < MIN_SIDE || w > MAX_SIDE || h > MAX_SIDE {
            Err(GridError::InvalidDimension)
        } else {
            Ok(Universe::new(w, h))
        }
    }

    /// Advances the grid by one generation. Every cell changes at once: its
    /// next state depends on its state and on its live neighbours before the
    /// call.
    pub fn tick(&mut self)
        ensures
            final(self)@ == old(self)@.step(),
            final(self)@.wf(),
    {
        proof {
            use_type_invariant(&*self);
        }
        let mut next = self.cells.clone();
        let mut row: u32 = 0;
        while row < self.height
            invariant
                self@.wf(),
                *self == *old(self),
                row <= self.height,
                next.len() == self.cells.len(),
                forall|i: int| 0 <= i < row * self.width ==> next[i] == self@.next_cell(i),
            decreases self.height - row,
        {
            let mut col: u32 = 0;
            while col < self.width
                invariant
                    self@.wf(),
                    *self == *old(self),
                    row < self.height,
                    col <= self.width,
                    next.len() == self.cells.len(),
                    forall|i: int| 0 <= i < row * self.width + col ==> next[i] == self@.next_cell(i),
                decreases self.width - col,
            {
                let idx = self.get_index(row, col);
                let cell = self.cells[idx];
                let live_neighbors = self.live_neighbor_count(row, col);
                next.set(idx, cell.next(live_neighbors));
                proof {
                    lemma_index_split(row as int, col as int, self.width as int);
                }
                col += 1;
            }
            proof {
                assert((row + 1) * self.width == row * self.width + self.width) by (nonlinear_arith);
            }
            row += 1;
        }
        proof {
            assert(row * self.width == self.width * self.height) by (nonlinear_arith)
                requires
                    row == self.height,
            ;
            assert(next@ =~= self@.step().cells);
        }
        self.cells = next;
    }

    /// The grid as text: for each row the glyphs of its cells, then a line
    /// feed.
    pub fn render(&self) -> (out: String)
        ensures
            out@ == text(self@),
    {
        proof {
            use_type_invariant(self);
        }
        render_cells(self.cells.as_slice(), self.width, self.height)
    }

    /// The number of columns.
    pub fn width(&self) -> (width: u32)
        ensures
            width == self@.width,
            self@.wf(),
    {
        proof {
            use_type_invariant(self);
        }
        self.width
    }

    /// The number of rows.
    pub fn height(&self) -> (height: u32)
        ensures
            height == self@.height,
            self@.wf(),
    {
        proof {
            use_type_invariant(self);
        }
        self.height
    }

    /// The cells, row after row. The borrow ends before the grid can change.
    pub fn cells(&self) -> (cells: &[Cell])
        ensures
            cells@ == self@.cells,
            cells@.len() == self@.width * self@.height,
    {
        proof {
            use_type_invariant(self);
        }
        self.cells.as_slice()
    }

    /// Gives the grid `width` columns and makes every cell dead. A width
    /// outside 2 ..= 1024 is refused, and the grid stays as it was.
    pub fn set_width(&mut self, width: u32) -> (done: Result<(), GridError>)
        ensures
            valid_side(width as int) ==> done is Ok && final(self)@ == blank(
                width as int,
                old(self)@.height,
            ),
            final(self)@.wf(),
            !valid_side(width as int) ==> done == Err::<(), GridError>(GridError::InvalidDimension)
                && final(self)@ == old(self)@,
    {
        proof {
            use_type_invariant(&*self);
        }
        if width < MIN_SIDE || width > MAX_SIDE {
            return Err(GridError::InvalidDimension);
        }
        assert(width * self.height <= 1024 * 1024) by (nonlinear_arith)
            requires
                0 <= width <= 1024,
                0 <= self.height <= 1024,
        ;
        let cells = dead_cells(width * self.height);
        *self = Universe { width, height: self.height, cells };
        Ok(())
    }

    /// Gives the grid `height` rows and makes every cell dead. A height
    /// outside 2 ..= 1024 is refused, and the grid stays as it was.
    pub fn set_height(&mut self, height: u32) -> (done: Result<(), GridError>)
        ensures
            valid_side(height as int) ==> done is Ok && final(self)@ == blank(
                old(self)@.width,
                height as int,
            ),
            final(self)@.wf(),
            !valid_side(height as int) ==> done == Err::<(), GridError>(
                GridError::InvalidDimension,
            ) && final(self)@ == old(self)@,
    {
        proof {
            use_type_invariant(&*self);
        }
        if height < MIN_SIDE || height > MAX_SIDE {
            return Err(GridError::InvalidDimension);
        }
        assert(self.width * height <= 1024 * 1024) by (nonlinear_arith)
            requires
                0 <= self.width <= 1024,
                0 <= height <= 1024,
        ;
        let cells = dead_cells(self.width * height);
        *self = Universe { width: self.width, height, cells };
        Ok(())
    }

    /// The cells, row after row.
    pub fn get_cells(&self) -> (cells: &[Cell])
        ensures
            cells@ == self@.cells,
            cells@.len() == self@.width * self@.height,
    {
        proof {
            use_type_invariant(self);
        }
        self.cells.as_slice()
    }

    /// Makes alive each cell that `cells` names by its row and its column, and
    /// leaves every other cell as it was. Where a pair names a row or a column
    /// that the grid does not have, the call is refused and nothing changes.
    pub fn set_cells(&mut self, cells: &[(u32, u32)]) -> (done: Result<(), GridError>)
        ensures
            old(self)@.holds(cells@) ==> done is Ok && final(self)@ == old(self)@.stamp(cells@),
            final(self)@.wf(),
            !old(self)@.holds(cells@) ==> done == Err::<(), GridError>(
                GridError::IndexOutOfBounds,
            ) && final(self)@ == old(self)@,
    {
        proof {
            use_type_invariant(&*self);
        }
        let mut next = self.cells.clone();
        proof {
            assert(next@ =~= self.cells@);
            assert(next@ =~= self@.stamp(cells@.take(0)).cells);
        }
        let mut k: usize = 0;
        while k < cells.len()
            invariant
                *self == *old(self),
                self@.wf(),
                k <= cells.len(),
                self@.holds(cells@.take(k as int)),
                next@ == self@.stamp(cells@.take(k as int)).cells,
            decreases cells.len() - k,
        {
            let (row, col) = cells[k];
            if row >= self.height || col >= self.width {
                assert(!self@.has(cells@[k as int].0 as int, cells@[k as int].1 as int));
                return Err(GridError::IndexOutOfBounds);
            }
            let idx = self.get_index(row, col);
            next.set(idx, Cell::Alive);
            proof {
                lemma_stamp_extend(self@, cells@, k as int);
                let grown = cells@.take(k + 1);
                assert forall|j: int| 0 <= j < grown.len() implies self@.has(
                    #[trigger] grown[j].0 as int,
                    grown[j].1 as int,
                ) by {
                    if j < k {
                        assert(grown[j] == cells@.take(k as int)[j]);
                    }
                }
            }
            k += 1;
        }
        proof {
            assert(cells@.take(k as int) =~= cells@);
        }
        self.cells = next;
        Ok(())
    }
}

} // verus!
