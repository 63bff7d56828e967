//! Arithmetic of row-major indices and of wrapping at the grid's edges.

use vstd::prelude::*;
use vstd::arithmetic::div_mod::{lemma_fundamental_div_mod_converse, lemma_small_mod, lemma_mod_multiples_vanish};

verus! {

/// A cell at `row`, `col` of a grid with `height` rows of `width` cells lies
/// inside the row-major sequence of `width * height` cells.
pub proof fn lemma_index_in_range(row: int, col: int, width: int, height: int)
    requires
        0 <= row < height,
        0 <= col < width,
    ensures
        0 <= row * width + col < width * height,
        row * width + col < (row + 1) * width,
        (row + 1) * width <= width * height,
{
    assert(0 <= row * width) by (nonlinear_arith)
        requires
            0 <= row,
            0 <= width,
    ;
    assert((row + 1) * width == row * width + width) by (nonlinear_arith);
    assert((row + 1) * width <= width * height) by (nonlinear_arith)
        requires
            row + 1 <= height,
            0 <= width,
    ;
}

/// A row-major index splits back into the row and the column it was made of.
pub proof fn lemma_index_split(row: int, col: int, width: int)
    requires
        0 <= col < width,
    ensures
        (row * width + col) / width == row,
        (row * width + col) % width == col,
{
    assert(row * width + col == width * row + col) by (nonlinear_arith);
    lemma_fundamental_div_mod_converse(row * width + col, width, row, col);
}

/// Every index below `width * height` is the index of one cell: its row is
/// the quotient by `width`, its column the remainder.
pub proof fn lemma_index_join(i: int, width: int, height: int)
    requires
        0 < width,
        0 <= i < width * height,
    ensures
        0 <= i / width < height,
        0 <= i % width < width,
        (i / width) * width + i % width == i,
{
    let q = i / width;
    let r = i % width;
    assert(i == width * q + r && 0 <= r < width) by {
        vstd::arithmetic::div_mod::lemma_fundamental_div_mod(i, width);
        vstd::arithmetic::div_mod::lemma_mod_bound(i, width);
    }
    assert(q * width == width * q) by (nonlinear_arith);
    assert(0 <= q < height) by (nonlinear_arith)
        requires
            i == width * q + r,
            0 <= r < width,
            0 <= i < width * height,
            0 < width,
    ;
}

/// Wrapping a coordinate that is at most one step outside `0 .. n`: one step
/// below 0 is `n - 1`, one step past `n - 1` is 0, and inside nothing moves.
pub proof fn lemma_wrap_step(x: int, n: int)
    requires
        0 < n,
        -1 <= x <= n,
    ensures
        x % n == if x < 0 {
            n - 1
        } else if x >= n {
            0
        } else {
            x
        },
        (x + n) % n == x % n,
{
    if x < 0 {
        lemma_small_mod((x + n) as nat, n as nat);
        lemma_mod_multiples_vanish(1, x, n);
    } else if x >= n {
        lemma_small_mod(0, n as nat);
        lemma_mod_multiples_vanish(1, 0, n);
        lemma_mod_multiples_vanish(2, 0, n);
    } else {
        lemma_small_mod(x as nat, n as nat);
        lemma_mod_multiples_vanish(1, x, n);
    }
}

} // verus!
