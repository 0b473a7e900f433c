//! Lattice geometry: the image is tiled by square cells of `cell` pixels,
//! and a gradient sits on every cell corner.

use vstd::prelude::*;
use vstd::arithmetic::div_mod::{lemma_div_is_ordered, lemma_div_plus_one, lemma_fundamental_div_mod_converse};

verus! {

/// Longest cell edge, in pixels, for which a noise value still fits the
/// 128-bit fractions used by the sampler.
pub const MAX_CELL: usize = 512;

/// Number of lattice corners along an axis that is `extent` pixels long:
/// one more than the number of cells needed to cover it,
/// `ceil(extent / cell) + 1`.
pub open spec fn corners(extent: int, cell: int) -> int {
    (extent + cell - 1) / cell + 1
}

/// Numerator of the position of pixel coordinate `x` inside its cell, as a
/// fraction of the cell edge: the position is `frac_num(x, cell) / cell`.
/// It is zero exactly on the lattice lines.
pub open spec fn frac_num(x: int, cell: int) -> int {
    x % cell
}

/// Index of the lattice line at or before pixel coordinate `x`.
pub open spec fn cell_index(x: int, cell: int) -> int {
    x / cell
}

/// Position of entry `(row, col)` in a row-major sequence of rows that are
/// `cols` long.
pub open spec fn row_major(row: int, col: int, cols: int) -> int {
    row * cols + col
}

/// Computes [`corners`], or `None` when the count does not fit a `usize`.
pub fn corner_count(extent: usize, cell: usize) -> (n: Option<usize>)
    requires
        cell >= 1,
    ensures
        n is Some <==> corners(extent as int, cell as int) <= usize::MAX,
        n matches Some(k) ==> k == corners(extent as int, cell as int),
{
    let whole: usize = extent / cell;
    let rest: usize = extent % cell;
    let partial: usize = if rest == 0 { 0 } else { 1 };
    proof {
        let e = extent as int;
        let c = cell as int;
        assert(e == c * (e / c) + e % c) by (nonlinear_arith)
            requires c >= 1;
        if rest == 0 {
            lemma_fundamental_div_mod_converse(e + c - 1, c, e / c, c - 1);
        } else {
            assert(e + c - 1 == (e / c + 1) * c + (e % c - 1)) by (nonlinear_arith)
                requires e == c * (e / c) + e % c;
            lemma_fundamental_div_mod_converse(e + c - 1, c, e / c + 1, e % c - 1);
        }
        assert(whole + partial == (e + c - 1) / c);
        assert(cell == 1 ==> rest == 0);
        assert(c >= 2 ==> e / c < e || e == 0) by (nonlinear_arith)
            requires e == c * (e / c) + e % c, 0 <= e % c, e >= 0;
    }
    (whole + partial).checked_add(1)
}

/// Computes [`frac_num`].
pub fn frac(x: usize, cell: usize) -> (n: usize)
    requires
        cell >= 1,
    ensures
        n == frac_num(x as int, cell as int),
        n < cell,
        x % cell == 0 ==> n == 0,
{
    x % cell
}

/// Every pixel of an axis lies in a cell whose two lattice lines both
/// carry corners: with `corners(extent, cell)` corners along the axis, the
/// line before pixel `x` and the line after it exist for every
/// `x < extent`.
pub proof fn lemma_pixel_between_corners(x: int, extent: int, cell: int)
    requires
        cell >= 1,
        0 <= x < extent,
    ensures
        0 <= cell_index(x, cell),
        cell_index(x, cell) + 1 < corners(extent, cell),
{
    lemma_div_is_ordered(0, x, cell);
    assert(0int / cell == 0) by (nonlinear_arith)
        requires cell >= 1;
    lemma_div_is_ordered(x, extent - 1, cell);
    lemma_div_plus_one(extent - 1, cell);
}

/// A pixel on a lattice line has position zero in its cell.
pub proof fn lemma_frac_on_lattice(k: int, cell: int)
    requires
        cell >= 1,
    ensures
        frac_num(k * cell, cell) == 0,
        cell_index(k * cell, cell) == k,
{
    lemma_fundamental_div_mod_converse(k * cell, cell, k, 0);
}

/// Row-major positions stay below `rows * cols`, and row and column can
/// be read back from a position, so that distinct entries have distinct
/// positions.
pub proof fn lemma_row_major(row: int, col: int, rows: int, cols: int)
    requires
        0 <= row < rows,
        0 <= col < cols,
    ensures
        0 <= row_major(row, col, cols) < rows * cols,
        row_major(row, col, cols) / cols == row,
        row_major(row, col, cols) % cols == col,
{
    assert(0 <= row * cols && (row + 1) * cols <= rows * cols) by (nonlinear_arith)
        requires
            0 <= row < rows,
            0 < cols,
    ;
    assert((row + 1) * cols == row * cols + cols) by (nonlinear_arith);
    assert(row * cols == cols * row) by (nonlinear_arith);
    lemma_fundamental_div_mod_converse(row * cols + col, cols, row, col);
}

} // verus!
