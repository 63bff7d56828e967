//! The grid as text: one line for each row, one glyph for each cell.

use vstd::prelude::*;
use crate::arith::{lemma_index_in_range, lemma_index_split};
use crate::cell::{glyph, Cell};
use crate::model::Grid;

verus! {

/// The text of a grid. Each row takes `width + 1` characters: the glyphs of
/// its cells from the first column to the last, then a line feed.
pub open spec fn text(grid: Grid) -> Seq<char> {
    Seq::new(
        (grid.height * (grid.width + 1)) as nat,
        |k: int| if k % (grid.width + 1) == grid.width {
            '\n'
        } else {
            glyph(grid.cell(k / (grid.width + 1), k % (grid.width + 1)))
        },
    )
}

/// Where in the text of a grid the glyph of the cell at `row`, `col` stands.
/// The line feed that ends the row stands where a cell in column `width`
/// would.
pub open spec fn place(grid: Grid, row: int, col: int) -> int {
    row * (grid.width + 1) + col
}

/// Appends `c` to `s` with `String::push` of the standard library, which
/// leaves the characters that `s` holds in place and puts `c` after the last
/// of them.
#[verifier::external_body]
fn push_char(s: &mut String, c: char)
    ensures
        final(s)@ == old(s)@.push(c),
{
    s.push(c);
}

/// Writes out the text of the grid that holds `cells` in `height` rows of
/// `width` cells.
pub(crate) fn render_cells(cells: &[Cell], width: u32, height: u32) -> (out: String)
    requires
        (Grid { width: width as int, height: height as int, cells: cells@ }).wf(),
    ensures
        out@ == text((Grid { width: width as int, height: height as int, cells: cells@ })),
{
    let ghost grid = Grid { width: width as int, height: height as int, cells: cells@ };
    let mut out = String::new();
    let mut row: u32 = 0;
    while row < height
        invariant
            grid == (Grid { width: width as int, height: height as int, cells: cells@ }),
            grid.wf(),
            row <= height,
            out@.len() == row * (width + 1),
            forall|k: int| 0 <= k < out@.len() ==> out@[k] == text(grid)[k],
        decreases height - row,
    {
        let mut col: u32 = 0;
        while col < width
            invariant
                grid == (Grid { width: width as int, height: height as int, cells: cells@ }),
                grid.wf(),
                row < height,
                col <= width,
                out@.len() == row * (width + 1) + col,
                forall|k: int| 0 <= k < out@.len() ==> out@[k] == text(grid)[k],
            decreases width - col,
        {
            proof {
                lemma_index_in_range(row as int, col as int, width as int, height as int);
                lemma_index_in_range(row as int, col as int, width + 1, height as int);
                lemma_index_split(row as int, col as int, width + 1);
                assert(row * width <= 1024 * 1024) by (nonlinear_arith)
                    requires
                        0 <= row <= 1024,
                        0 <= width <= 1024,
                ;
            }
            let cell = cells[(row * width + col) as usize];
            push_char(&mut out, cell.symbol());
            col += 1;
        }
        proof {
            lemma_index_in_range(row as int, width as int, width + 1, height as int);
            lemma_index_split(row as int, width as int, width + 1);
            assert((row + 1) * (width + 1) == row * (width + 1) + width + 1) by (nonlinear_arith);
        }
        push_char(&mut out, '\n');
        row += 1;
    }
    proof {
        assert(out@ =~= text(grid));
    }
    out
}

} // verus!
