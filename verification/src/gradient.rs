//! Gradients and the grid that holds one of them on every lattice corner.
//!
//! A gradient is a unit vector.  Its components are fixed-point numbers
//! with sixteen fractional bits: the integer `ONE` stands for `1.0`.

use vstd::prelude::*;
use crate::lattice::{corner_count, corners, lemma_row_major, row_major};

verus! {

/// The fixed-point representation of `1.0`.
pub const ONE: i32 = 65536;

/// Whether `(x, y)`, in units of `1 / ONE`, is a unit vector up to the
/// rounding of its components: no component exceeds `1.0`, and the squared
/// length differs from `1.0` by at most `2 / ONE`.  Every unit vector whose
/// components are rounded to the nearest multiple of `1 / ONE` passes.
pub open spec fn near_unit(x: int, y: int) -> bool {
    &&& -ONE <= x <= ONE
    &&& -ONE <= y <= ONE
    &&& ONE * ONE - 2 * ONE <= x * x + y * y <= ONE * ONE + 2 * ONE
}

/// A unit vector in fixed point.
#[derive(Clone, Copy, Debug)]
pub struct Gradient {
    x: i32,
    y: i32,
}

impl View for Gradient {
    type V = (int, int);

    /// The components, in units of `1 / ONE`.
    closed spec fn view(&self) -> (int, int) {
        (self.x as int, self.y as int)
    }
}

impl Gradient {
    #[verifier::type_invariant]
    spec fn is_near_unit(self) -> bool {
        near_unit(self.x as int, self.y as int)
    }

    /// The gradient with components `(x, y)`, if that is a unit vector in
    /// the sense of [`near_unit`].
    pub fn new(x: i32, y: i32) -> (g: Option<Gradient>)
        ensures
            g is Some <==> near_unit(x as int, y as int),
            g matches Some(v) ==> v@ == (x as int, y as int),
    {
        if x < -ONE || x > ONE || y < -ONE || y > ONE {
            return None;
        }
        let wx: i64 = x as i64;
        let wy: i64 = y as i64;
        assert(0 <= wx * wx <= 4294967296 && 0 <= wy * wy <= 4294967296) by (nonlinear_arith)
            requires
                -65536 <= wx <= 65536,
                -65536 <= wy <= 65536,
        ;
        let square: i64 = wx * wx + wy * wy;
        let unit: i64 = 4294967296;
        let slack: i64 = 131072;
        if square < unit - slack || square > unit + slack {
            return None;
        }
        Some(Gradient { x, y })
    }

    /// The unit vector along the first axis, `(1, 0)`.
    pub fn east() -> (g: Gradient)
        ensures
            g@ == (ONE as int, 0int),
    {
        Gradient { x: ONE, y: 0 }
    }

    /// First component, in units of `1 / ONE`.
    pub fn x(&self) -> (x: i32)
        ensures
            x == self@.0,
            near_unit(self@.0, self@.1),
    {
        proof {
            use_type_invariant(self);
        }
        self.x
    }

    /// Second component, in units of `1 / ONE`.
    pub fn y(&self) -> (y: i32)
        ensures
            y == self@.1,
            near_unit(self@.0, self@.1),
    {
        proof {
            use_type_invariant(self);
        }
        self.y
    }
}

/// One gradient on every corner of a lattice of `rows` by `cols` corners.
pub struct GradientGrid {
    rows: usize,
    cols: usize,
    cells: Vec<Gradient>,
}

impl GradientGrid {
    #[verifier::type_invariant]
    spec fn is_rectangular(self) -> bool {
        &&& self.rows * self.cols <= usize::MAX
        &&& self.cells@.len() == self.rows * self.cols
    }

    /// Number of corner rows.
    pub closed spec fn spec_rows(&self) -> usize {
        self.rows
    }

    /// Number of corners in each row.
    pub closed spec fn spec_cols(&self) -> usize {
        self.cols
    }

    /// The gradient on corner `(row, col)`.
    pub closed spec fn at(self, row: int, col: int) -> (int, int) {
        self.cells@[row_major(row, col, self.cols as int)]@
    }

    /// Whether the grid has a corner on every lattice line that a pixel of
    /// a `width` by `height` image lies on or between.
    pub open spec fn covers(self, width: int, height: int, cell: int) -> bool {
        &&& corners(height, cell) <= self.rows()
        &&& corners(width, cell) <= self.cols()
    }

    /// A grid of `rows` by `cols` corners whose gradients all point along
    /// the first axis, or `None` when that many corners cannot be indexed.
    pub fn new(rows: usize, cols: usize) -> (grid: Option<GradientGrid>)
        ensures
            grid is Some <==> rows * cols <= usize::MAX,
            grid matches Some(g) ==> {
                &&& g.rows() == rows
                &&& g.cols() == cols
                &&& forall|r: int, c: int|
                    0 <= r < rows && 0 <= c < cols ==> #[trigger] g.at(r, c) == (ONE as int, 0int)
            },
    {
        let count: usize = match rows.checked_mul(cols) {
            Some(n) => n,
            None => {
                return None;
            },
        };
        let mut cells: Vec<Gradient> = Vec::new();
        let mut i: usize = 0;
        while i < count
            invariant
                i <= count,
                cells@.len() == i,
                forall|k: int| 0 <= k < i ==> (#[trigger] cells@[k])@ == (ONE as int, 0int),
            decreases count - i,
        {
            cells.push(Gradient::east());
            i = i + 1;
        }
        let grid = GradientGrid { rows, cols, cells };
        proof {
            assert forall|r: int, c: int| 0 <= r < rows && 0 <= c < cols implies #[trigger] grid.at(
                r,
                c,
            ) == (ONE as int, 0int) by {
                lemma_row_major(r, c, rows as int, cols as int);
            }
        }
        Some(grid)
    }

    /// The grid for an image of `width` by `height` pixels tiled by cells
    /// of `cell` pixels: `ceil(height / cell) + 1` rows of
    /// `ceil(width / cell) + 1` corners, so that it covers the image.  All
    /// gradients point along the first axis.  `None` when that many corners
    /// cannot be indexed.
    pub fn for_image(width: usize, height: usize, cell: usize) -> (grid: Option<GradientGrid>)
        requires
            cell >= 1,
        ensures
            grid is Some <==> corners(height as int, cell as int) * corners(
                width as int,
                cell as int,
            ) <= usize::MAX,
            grid matches Some(g) ==> {
                &&& g.rows() == corners(height as int, cell as int)
                &&& g.cols() == corners(width as int, cell as int)
                &&& g.covers(width as int, height as int, cell as int)
                &&& forall|r: int, c: int|
                    0 <= r < g.rows() && 0 <= c < g.cols() ==> #[trigger] g.at(r, c) == (
                        ONE as int,
                        0int,
                    )
            },
    {
        let ghost nr = corners(height as int, cell as int);
        let ghost nc = corners(width as int, cell as int);
        proof {
            vstd::arithmetic::div_mod::lemma_div_pos_is_pos(height + cell - 1, cell as int);
            vstd::arithmetic::div_mod::lemma_div_pos_is_pos(width + cell - 1, cell as int);
            assert(nr >= 1 && nc >= 1);
            assert(nr * nc >= nr && nr * nc >= nc) by (nonlinear_arith)
                requires
                    nr >= 1,
                    nc >= 1,
            ;
        }
        let rows: usize = match corner_count(height, cell) {
            Some(n) => n,
            None => {
                return None;
            },
        };
        let cols: usize = match corner_count(width, cell) {
            Some(n) => n,
            None => {
                return None;
            },
        };
        GradientGrid::new(rows, cols)
    }

    /// Number of corner rows.
    #[verifier::when_used_as_spec(spec_rows)]
    pub fn rows(&self) -> (n: usize)
        ensures
            n == self.spec_rows(),
    {
        self.rows
    }

    /// Number of corners in each row.
    #[verifier::when_used_as_spec(spec_cols)]
    pub fn cols(&self) -> (n: usize)
        ensures
            n == self.spec_cols(),
    {
        self.cols
    }

    /// The gradient on corner `(row, col)`.
    pub fn get(&self, row: usize, col: usize) -> (g: Gradient)
        requires
            row < self.rows(),
            col < self.cols(),
        ensures
            g@ == self.at(row as int, col as int),
            near_unit(g@.0, g@.1),
    {
        proof {
            use_type_invariant(self);
            lemma_row_major(row as int, col as int, self.rows as int, self.cols as int);
        }
        let g: Gradient = self.cells[row * self.cols + col];
        proof {
            use_type_invariant(&g);
        }
        g
    }

    /// Puts `g` on corner `(row, col)`; every other corner keeps its
    /// gradient.
    pub fn set(&mut self, row: usize, col: usize, g: Gradient)
        requires
            row < old(self).rows(),
            col < old(self).cols(),
        ensures
            final(self).rows() == old(self).rows(),
            final(self).cols() == old(self).cols(),
            final(self).at(row as int, col as int) == g@,
            forall|r: int, c: int|
                0 <= r < old(self).rows() && 0 <= c < old(self).cols() && (r != row || c
                    != col) ==> #[trigger] final(self).at(r, c) == old(self).at(r, c),
    {
        proof {
            use_type_invariant(&*self);
            lemma_row_major(row as int, col as int, self.rows as int, self.cols as int);
        }
        let i: usize = row * self.cols + col;
        self.cells[i] = g;
        proof {
            assert forall|r: int, c: int|
                0 <= r < old(self).rows() && 0 <= c < old(self).cols() && (r != row || c
                    != col) implies #[trigger] self.at(r, c) == old(self).at(r, c) by {
                lemma_row_major(r, c, self.rows as int, self.cols as int);
            }
        }
    }

    /// Decides [`GradientGrid::covers`].
    pub fn covers_image(&self, width: usize, height: usize, cell: usize) -> (yes: bool)
        requires
            cell >= 1,
        ensures
            yes == self.covers(width as int, height as int, cell as int),
    {
        let rows_ok: bool = match corner_count(height, cell) {
            Some(n) => n <= self.rows,
            None => false,
        };
        let cols_ok: bool = match corner_count(width, cell) {
            Some(n) => n <= self.cols,
            None => false,
        };
        rows_ok && cols_ok
    }
}

} // verus!
