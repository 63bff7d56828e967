//! What holds of every grid: the edges meet, a generation keeps the grid's
//! shape, a lone cell dies, a block stands still, and the text has one line
//! for each row.

use vstd::prelude::*;
use crate::arith::{lemma_index_in_range, lemma_index_join, lemma_index_split, lemma_wrap_step};
use crate::cell::{glyph, Cell};
use crate::model::{blank, Grid};
use crate::render::{place, text};

verus! {

/// A generation changes no side of the grid, and a well-formed grid stays
/// well-formed, after one generation and after any number of them.
pub proof fn lemma_generations_keep_shape(grid: Grid, n: nat)
    requires
        grid.wf(),
    ensures
        grid.step().wf(),
        grid.generations(n).wf(),
        grid.generations(n).width == grid.width,
        grid.generations(n).height == grid.height,
    decreases n,
{
    if n > 0 {
        lemma_generations_keep_shape(grid, (n - 1) as nat);
    }
}

/// The grid is a torus. Seen from the first row, the row above is the last
/// row, and seen from the last row, the row below is the first; the same
/// holds of the columns. So a live cell at one edge counts as a neighbour of
/// the cell across the opposite edge.
pub proof fn lemma_edges_meet(grid: Grid, row: int, col: int)
    requires
        grid.wf(),
        grid.has(row, col),
    ensures
        grid.torus_cell(-1, col) == grid.cell(grid.height - 1, col),
        grid.torus_cell(grid.height, col) == grid.cell(0, col),
        grid.torus_cell(row, -1) == grid.cell(row, grid.width - 1),
        grid.torus_cell(row, grid.width) == grid.cell(row, 0),
        grid.cell(grid.height - 1, col) == Cell::Alive ==> grid.live_neighbors(0, col) >= 1,
        grid.cell(0, col) == Cell::Alive ==> grid.live_neighbors(grid.height - 1, col) >= 1,
        grid.cell(row, grid.width - 1) == Cell::Alive ==> grid.live_neighbors(row, 0) >= 1,
        grid.cell(row, 0) == Cell::Alive ==> grid.live_neighbors(row, grid.width - 1) >= 1,
{
    lemma_wrap_step(-1, grid.height);
    lemma_wrap_step(grid.height, grid.height);
    lemma_wrap_step(row, grid.height);
    lemma_wrap_step(-1, grid.width);
    lemma_wrap_step(grid.width, grid.width);
    lemma_wrap_step(col, grid.width);
}

/// Whether the cell at `row`, `col` is the only live cell of the grid.
pub open spec fn lone(grid: Grid, row: int, col: int) -> bool {
    &&& grid.has(row, col)
    &&& forall|r: int, c: int|
        grid.has(r, c) ==> ((#[trigger] grid.cell(r, c)) == Cell::Alive) == (r == row && c == col)
}

/// A live cell with no live cell around it is dead in the next generation;
/// and where it was the only live cell of the grid, the whole grid is dead
/// in the next generation.
pub proof fn lemma_lone_cell_dies(grid: Grid, row: int, col: int)
    requires
        grid.wf(),
        lone(grid, row, col),
    ensures
        grid.live_neighbors(row, col) == 0,
        grid.step().cell(row, col) == Cell::Dead,
        grid.step() == blank(grid.width, grid.height),
{
    let w = grid.width;
    let h = grid.height;
    assert forall|i: int| 0 <= i < grid.cells.len() implies grid.next_cell(i) == Cell::Dead by {
        lemma_index_join(i, w, h);
        let r = i / w;
        let c = i % w;
        assert(grid.cells[i] == grid.cell(r, c));
        lemma_wrap_step(r - 1, h);
        lemma_wrap_step(r, h);
        lemma_wrap_step(r + 1, h);
        lemma_wrap_step(c - 1, w);
        lemma_wrap_step(c, w);
        lemma_wrap_step(c + 1, w);
    }
    lemma_index_in_range(row, col, w, h);
    lemma_index_split(row, col, w);
    assert(grid.step().cells =~= blank(w, h).cells);
    lemma_wrap_step(row - 1, h);
    lemma_wrap_step(row, h);
    lemma_wrap_step(row + 1, h);
    lemma_wrap_step(col - 1, w);
    lemma_wrap_step(col, w);
    lemma_wrap_step(col + 1, w);
}

/// Whether `a` is `b` or next to `b` on a ring of `n` places.
pub open spec fn near(a: int, b: int, n: int) -> bool {
    a == b || a == (b + 1) % n || a == (b - 1) % n
}

/// Where a grid with sides of at least three cells has one live cell only,
/// that cell is counted once by each of the eight cells around it on the
/// torus, across the edges too, and by no other cell.
pub proof fn lemma_lone_cell_is_counted_around(grid: Grid, row: int, col: int, r: int, c: int)
    requires
        grid.wf(),
        grid.width >= 3,
        grid.height >= 3,
        lone(grid, row, col),
        grid.has(r, c),
    ensures
        grid.live_neighbors(r, c) == if (r != row || c != col) && near(r, row, grid.height) && near(
            c,
            col,
            grid.width,
        ) {
            1int
        } else {
            0int
        },
{
    let w = grid.width;
    let h = grid.height;
    lemma_wrap_step(row - 1, h);
    lemma_wrap_step(row + 1, h);
    lemma_wrap_step(col - 1, w);
    lemma_wrap_step(col + 1, w);
    lemma_wrap_step(r - 1, h);
    lemma_wrap_step(r, h);
    lemma_wrap_step(r + 1, h);
    lemma_wrap_step(c - 1, w);
    lemma_wrap_step(c, w);
    lemma_wrap_step(c + 1, w);
}

/// Whether the live cells of the grid are exactly the four cells of the
/// square whose upper left cell is at `row`, `col`. The square goes on across
/// an edge of the grid where it starts in the last row or the last column.
pub open spec fn block(grid: Grid, row: int, col: int) -> bool {
    &&& grid.has(row, col)
    &&& forall|r: int, c: int|
        grid.has(r, c) ==> ((#[trigger] grid.cell(r, c)) == Cell::Alive) == ((r == row || r == (row
            + 1) % grid.height) && (c == col || c == (col + 1) % grid.width))
}

/// A square of four live cells in an otherwise dead grid, each side of which
/// is at least three cells long, is the same in the next generation.
pub proof fn lemma_block_is_still(grid: Grid, row: int, col: int)
    requires
        grid.wf(),
        grid.width >= 3,
        grid.height >= 3,
        block(grid, row, col),
    ensures
        grid.step() == grid,
{
    let w = grid.width;
    let h = grid.height;
    lemma_wrap_step(row + 1, h);
    lemma_wrap_step(col + 1, w);
    assert forall|i: int| 0 <= i < grid.cells.len() implies grid.next_cell(i) == grid.cells[i] by {
        lemma_index_join(i, w, h);
        let r = i / w;
        let c = i % w;
        assert(grid.cells[i] == grid.cell(r, c));
        lemma_wrap_step(r - 1, h);
        lemma_wrap_step(r, h);
        lemma_wrap_step(r + 1, h);
        lemma_wrap_step(c - 1, w);
        lemma_wrap_step(c, w);
        lemma_wrap_step(c + 1, w);
    }
    assert(grid.step().cells =~= grid.cells);
}

/// Such a square is the same after any number of generations.
pub proof fn lemma_block_stays(grid: Grid, row: int, col: int, n: nat)
    requires
        grid.wf(),
        grid.width >= 3,
        grid.height >= 3,
        block(grid, row, col),
    ensures
        grid.generations(n) == grid,
    decreases n,
{
    if n > 0 {
        lemma_block_stays(grid, row, col, (n - 1) as nat);
        lemma_block_is_still(grid, row, col);
    }
}

/// The text of a grid has one line for each row: the glyphs of the row's
/// cells, none of which is a line feed, and then a line feed.
pub proof fn lemma_text_shape(grid: Grid)
    requires
        grid.wf(),
    ensures
        text(grid).len() == grid.height * (grid.width + 1),
        forall|row: int, col: int|
            grid.has(row, col) ==> {
                &&& 0 <= #[trigger] place(grid, row, col) < text(grid).len()
                &&& text(grid)[place(grid, row, col)] == glyph(grid.cell(row, col))
                &&& text(grid)[place(grid, row, col)] != '\n'
            },
        forall|row: int|
            0 <= row < grid.height ==> {
                &&& 0 <= #[trigger] place(grid, row, grid.width) < text(grid).len()
                &&& text(grid)[place(grid, row, grid.width)] == '\n'
            },
{
    let w = grid.width;
    let h = grid.height;
    assert(0 <= h * (w + 1)) by (nonlinear_arith)
        requires
            0 <= h,
            0 <= w,
    ;
    assert(h * (w + 1) == (w + 1) * h) by (nonlinear_arith);
    assert forall|row: int, col: int| grid.has(row, col) implies {
        &&& 0 <= #[trigger] place(grid, row, col) < text(grid).len()
        &&& text(grid)[place(grid, row, col)] == glyph(grid.cell(row, col))
        &&& text(grid)[place(grid, row, col)] != '\n'
    } by {
        lemma_index_in_range(row, col, w + 1, h);
        lemma_index_split(row, col, w + 1);
    }
    assert forall|row: int| 0 <= row < h implies {
        &&& 0 <= #[trigger] place(grid, row, grid.width) < text(grid).len()
        &&& text(grid)[place(grid, row, grid.width)] == '\n'
    } by {
        lemma_index_in_range(row, w, w + 1, h);
        lemma_index_split(row, w, w + 1);
    }
}

} // verus!
