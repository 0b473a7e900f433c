//! Noise value of a pixel: the four gradients on the corners of its cell,
//! each multiplied with the offset from its corner to the pixel, blended
//! with the fade curve.
//!
//! Offsets are fractions of the cell edge and gradients are fractions of
//! `ONE`, so a noise value is a fraction whose denominator depends on the
//! cell size alone.  Nothing is rounded on the way.

use vstd::prelude::*;
use crate::fade::{ease, ease_num, fifth_power, lemma_ease_half, pow5, MAX_POW5};
use crate::gradient::{Gradient, GradientGrid, ONE};
use crate::lattice::{cell_index, frac, frac_num, MAX_CELL};

verus! {

/// A fraction `num / den` of two integers.
pub struct Fraction {
    pub num: int,
    pub den: int,
}

/// Largest denominator of a [`Noise`]: `i128::MAX / 255`, so that a noise
/// value between zero and one can be scaled to a byte without overflow.
pub const MAX_DEN: i128 = 667220327295957771496812955748565120;

/// A noise value: the fraction `num / den` with a positive denominator.
#[derive(Clone, Copy, Debug)]
pub struct Noise {
    num: i128,
    den: i128,
}

impl View for Noise {
    type V = Fraction;

    closed spec fn view(&self) -> Fraction {
        Fraction { num: self.num as int, den: self.den as int }
    }
}

impl Noise {
    #[verifier::type_invariant]
    spec fn has_valid_denominator(self) -> bool {
        0 < self.den <= MAX_DEN
    }

    /// The noise value `num / den`, if `den` is positive and at most
    /// [`MAX_DEN`].
    pub fn new(num: i128, den: i128) -> (n: Option<Noise>)
        ensures
            n is Some <==> 0 < den <= MAX_DEN,
            n matches Some(v) ==> v@ == (Fraction { num: num as int, den: den as int }),
    {
        if 0 < den && den <= MAX_DEN {
            Some(Noise { num, den })
        } else {
            None
        }
    }

    /// The numerator.
    pub fn num(&self) -> (num: i128)
        ensures
            num == self@.num,
    {
        self.num
    }

    /// The denominator.
    pub fn den(&self) -> (den: i128)
        ensures
            den == self@.den,
            0 < den <= MAX_DEN,
    {
        proof {
            use_type_invariant(self);
        }
        self.den
    }
}

/// Dot product of gradient `g` with the offset `(ox, oy)`.
pub open spec fn dot(g: (int, int), ox: int, oy: int) -> int {
    g.0 * ox + g.1 * oy
}

/// `(a1 - a0) * ease + a0` for the eased weight `w / d5`, as a numerator
/// over `d5`.
pub open spec fn interpolate_num(a0: int, a1: int, w: int, d5: int) -> int {
    (a1 - a0) * w + a0 * d5
}

/// The four corner products `tl`, `tr`, `bl`, `br` of a cell blended at
/// the position `(u / cell, v / cell)` inside it: the top pair and the
/// bottom pair are each interpolated with `ease(u / cell)`, and the two
/// results with `ease(v / cell)`.  The result is a numerator over
/// `pow5(cell) * pow5(cell)`.
pub open spec fn blend(tl: int, tr: int, bl: int, br: int, u: int, v: int, cell: int) -> int {
    let p = pow5(cell);
    let upper = interpolate_num(tl, tr, ease_num(u, cell), p);
    let lower = interpolate_num(bl, br, ease_num(u, cell), p);
    interpolate_num(upper, lower, ease_num(v, cell), p)
}

/// Numerator of the noise value of pixel `(x, y)` over [`noise_den`].
///
/// With `(u, v)` the position of the pixel in its cell, the offsets from
/// the four corners to the pixel are `(u, v)`, `(u - 1, v)`, `(u, v - 1)`
/// and `(u - 1, v - 1)` cell edges.
pub open spec fn noise_num(grid: GradientGrid, x: int, y: int, cell: int) -> int {
    let left = cell_index(x, cell);
    let top = cell_index(y, cell);
    let u = frac_num(x, cell);
    let v = frac_num(y, cell);
    blend(
        dot(grid.at(top, left), u, v),
        dot(grid.at(top, left + 1), u - cell, v),
        dot(grid.at(top + 1, left), u, v - cell),
        dot(grid.at(top + 1, left + 1), u - cell, v - cell),
        u,
        v,
        cell,
    )
}

/// Denominator of every noise value on a lattice of cell size `cell`:
/// `ONE` for the gradients, `cell` for the offsets, and `pow5(cell)` for
/// each of the two eased weights.
pub open spec fn noise_den(cell: int) -> int {
    ONE * cell * pow5(cell) * pow5(cell)
}

/// The noise value of pixel `(x, y)`.
pub open spec fn noise_at(grid: GradientGrid, x: int, y: int, cell: int) -> Fraction {
    Fraction { num: noise_num(grid, x, y, cell), den: noise_den(cell) }
}

/// An interpolated value lies between the two values it blends: if both
/// are at most `b` in magnitude, so is the result (as a numerator over
/// `d5`).
pub proof fn lemma_interpolate_bound(a0: int, a1: int, w: int, d5: int, b: int)
    requires
        -b <= a0 <= b,
        -b <= a1 <= b,
        0 <= w <= d5,
    ensures
        -b * d5 <= interpolate_num(a0, a1, w, d5) <= b * d5,
{
    assert((a1 - a0) * w + a0 * d5 == a0 * (d5 - w) + a1 * w) by (nonlinear_arith);
    assert(-b * (d5 - w) <= a0 * (d5 - w) <= b * (d5 - w)) by (nonlinear_arith)
        requires
            -b <= a0 <= b,
            0 <= d5 - w,
    ;
    assert(-b * w <= a1 * w <= b * w) by (nonlinear_arith)
        requires
            -b <= a1 <= b,
            0 <= w,
    ;
    assert(b * (d5 - w) + b * w == b * d5) by (nonlinear_arith);
    assert(-b * (d5 - w) + -b * w == -b * d5) by (nonlinear_arith);
}

/// A gradient does not act on its own corner: there the offset is
/// `(0, 0)`, and the product with it is zero.
pub proof fn lemma_dot_on_own_corner(g: (int, int))
    ensures
        dot(g, 0, 0) == 0,
{
}

/// On a vertical lattice line the corners to the right have no weight:
/// the value is the two left corner products interpolated along the line.
pub proof fn lemma_blend_on_left_edge(tl: int, tr: int, bl: int, br: int, v: int, cell: int)
    ensures
        blend(tl, tr, bl, br, 0, v, cell) == pow5(cell) * interpolate_num(
            tl,
            bl,
            ease_num(v, cell),
            pow5(cell),
        ),
{
    let p = pow5(cell);
    let ev = ease_num(v, cell);
    assert(ease_num(0, cell) == 0) by (nonlinear_arith);
    assert(interpolate_num(tl, tr, 0, p) == tl * p) by (nonlinear_arith);
    assert(interpolate_num(bl, br, 0, p) == bl * p) by (nonlinear_arith);
    assert((bl * p - tl * p) * ev + (tl * p) * p == p * ((bl - tl) * ev + tl * p))
        by (nonlinear_arith);
}

/// On a horizontal lattice line the corners below have no weight: the
/// value is the two upper corner products interpolated along the line.
pub proof fn lemma_blend_on_top_edge(tl: int, tr: int, bl: int, br: int, u: int, cell: int)
    ensures
        blend(tl, tr, bl, br, u, 0, cell) == pow5(cell) * interpolate_num(
            tl,
            tr,
            ease_num(u, cell),
            pow5(cell),
        ),
{
    let p = pow5(cell);
    let upper = interpolate_num(tl, tr, ease_num(u, cell), p);
    let lower = interpolate_num(bl, br, ease_num(u, cell), p);
    assert(ease_num(0, cell) == 0) by (nonlinear_arith);
    assert((lower - upper) * 0 + upper * p == p * upper) by (nonlinear_arith);
}

/// In the centre of a cell both eased weights are one half, and the value
/// is the plain average of the four corner products.
pub proof fn lemma_blend_at_center(tl: int, tr: int, bl: int, br: int, half: int)
    ensures
        4 * blend(tl, tr, bl, br, half, half, 2 * half) == pow5(2 * half) * pow5(2 * half) * (tl
            + tr + bl + br),
{
    let p = pow5(2 * half);
    let e = ease_num(half, 2 * half);
    lemma_ease_half(half);
    let upper = interpolate_num(tl, tr, e, p);
    let lower = interpolate_num(bl, br, e, p);
    assert(2 * upper == p * (tl + tr)) by (nonlinear_arith)
        requires
            upper == (tr - tl) * e + tl * p,
            2 * e == p,
    ;
    assert(2 * lower == p * (bl + br)) by (nonlinear_arith)
        requires
            lower == (br - bl) * e + bl * p,
            2 * e == p,
    ;
    let total = interpolate_num(upper, lower, e, p);
    assert(2 * total == p * (upper + lower)) by (nonlinear_arith)
        requires
            total == (lower - upper) * e + upper * p,
            2 * e == p,
    ;
    assert(4 * total == p * p * (tl + tr + bl + br)) by (nonlinear_arith)
        requires
            2 * total == p * (upper + lower),
            2 * upper == p * (tl + tr),
            2 * lower == p * (bl + br),
    ;
}

/// On a lattice corner the noise value is zero, whatever the gradients:
/// the pixel's own corner contributes the product with the offset
/// `(0, 0)`, and the three other corners have no weight.
pub proof fn lemma_noise_on_corner(grid: GradientGrid, x: int, y: int, cell: int)
    requires
        cell >= 1,
        x % cell == 0,
        y % cell == 0,
    ensures
        frac_num(x, cell) == 0,
        frac_num(y, cell) == 0,
        noise_num(grid, x, y, cell) == 0,
{
    let left = cell_index(x, cell);
    let top = cell_index(y, cell);
    let tl = dot(grid.at(top, left), 0, 0);
    let tr = dot(grid.at(top, left + 1), 0 - cell, 0);
    let bl = dot(grid.at(top + 1, left), 0, 0 - cell);
    let br = dot(grid.at(top + 1, left + 1), 0 - cell, 0 - cell);
    lemma_blend_on_left_edge(tl, tr, bl, br, 0, cell);
    lemma_dot_on_own_corner(grid.at(top, left));
    assert(ease_num(0, cell) == 0) by (nonlinear_arith);
    assert(interpolate_num(0, bl, 0, pow5(cell)) == 0) by (nonlinear_arith);
}

/// In the centre of a cell of even size the noise value is the average of
/// the four corner products, each taken with an offset of half a cell
/// along both axes: `noise = (tl + tr + bl + br) / 4` in units of
/// `1 / (ONE * cell)`.
pub proof fn lemma_noise_at_center(grid: GradientGrid, x: int, y: int, half: int)
    requires
        half >= 1,
        x % (2 * half) == half,
        y % (2 * half) == half,
    ensures
        ({
            let cell = 2 * half;
            let left = cell_index(x, cell);
            let top = cell_index(y, cell);
            4 * noise_num(grid, x, y, cell) == pow5(cell) * pow5(cell) * (dot(
                grid.at(top, left),
                half,
                half,
            ) + dot(grid.at(top, left + 1), -half, half) + dot(grid.at(top + 1, left), half, -half)
                + dot(grid.at(top + 1, left + 1), -half, -half))
        }),
{
    let cell = 2 * half;
    let left = cell_index(x, cell);
    let top = cell_index(y, cell);
    lemma_blend_at_center(
        dot(grid.at(top, left), half, half),
        dot(grid.at(top, left + 1), half - cell, half),
        dot(grid.at(top + 1, left), half, half - cell),
        dot(grid.at(top + 1, left + 1), half - cell, half - cell),
        half,
    );
}

/// Largest magnitude of a value that [`interpolate`] blends: a corner
/// product, at most `2 * ONE * MAX_CELL`, times an eased weight's
/// denominator, at most `MAX_POW5`.
const MAX_BLENDED: i128 = 2361183241434822606848;

/// Computes [`dot`] for an offset of at most `reach` along each axis.
fn dot_product(g: Gradient, ox: i128, oy: i128, reach: i128) -> (d: i128)
    requires
        0 <= reach <= MAX_CELL,
        -reach <= ox <= reach,
        -reach <= oy <= reach,
    ensures
        d == dot(g@, ox as int, oy as int),
        -(2 * ONE) * reach <= d <= (2 * ONE) * reach,
{
    let gx: i128 = g.x() as i128;
    let gy: i128 = g.y() as i128;
    assert(-65536 * reach <= gx * ox <= 65536 * reach) by (nonlinear_arith)
        requires
            -65536 <= gx <= 65536,
            -reach <= ox <= reach,
    ;
    assert(-65536 * reach <= gy * oy <= 65536 * reach) by (nonlinear_arith)
        requires
            -65536 <= gy <= 65536,
            -reach <= oy <= reach,
    ;
    gx * ox + gy * oy
}

/// Computes [`interpolate_num`].
fn interpolate(a0: i128, a1: i128, w: i128, d5: i128) -> (r: i128)
    requires
        -MAX_BLENDED <= a0 <= MAX_BLENDED,
        -MAX_BLENDED <= a1 <= MAX_BLENDED,
        0 <= w <= d5 <= MAX_POW5,
    ensures
        r == interpolate_num(a0 as int, a1 as int, w as int, d5 as int),
{
    let rise: i128 = a1 - a0;
    assert(-2 * 2361183241434822606848 * 35184372088832 <= rise * w <= 2 * 2361183241434822606848
        * 35184372088832) by (nonlinear_arith)
        requires
            -2 * 2361183241434822606848 <= rise <= 2 * 2361183241434822606848,
            0 <= w <= 35184372088832,
    ;
    assert(-2361183241434822606848 * 35184372088832 <= a0 * d5 <= 2361183241434822606848
        * 35184372088832) by (nonlinear_arith)
        requires
            -2361183241434822606848 <= a0 <= 2361183241434822606848,
            0 <= d5 <= 35184372088832,
    ;
    rise * w + a0 * d5
}

/// The noise value of pixel `(x, y)` on a lattice of cell size `cell`.  It
/// is signed, and never exceeds two in magnitude.
///
/// The pixel's cell must have its four corners on the grid; this holds for
/// every pixel of an image that the grid covers.
pub fn sample(x: usize, y: usize, grid: &GradientGrid, cell: usize) -> (n: Noise)
    requires
        1 <= cell <= MAX_CELL,
        cell_index(x as int, cell as int) + 1 < grid.cols(),
        cell_index(y as int, cell as int) + 1 < grid.rows(),
    ensures
        n@ == noise_at(*grid, x as int, y as int, cell as int),
        -2 * n@.den <= n@.num <= 2 * n@.den,
{
    let left: usize = x / cell;
    let top: usize = y / cell;
    let u: usize = frac(x, cell);
    let v: usize = frac(y, cell);
    let c: i128 = cell as i128;
    let ou: i128 = u as i128;
    let ov: i128 = v as i128;
    let tl: i128 = dot_product(grid.get(top, left), ou, ov, c);
    let tr: i128 = dot_product(grid.get(top, left + 1), ou - c, ov, c);
    let bl: i128 = dot_product(grid.get(top + 1, left), ou, ov - c, c);
    let br: i128 = dot_product(grid.get(top + 1, left + 1), ou - c, ov - c, c);
    let eu: i128 = ease(u, cell) as i128;
    let ev: i128 = ease(v, cell) as i128;
    let p: i128 = fifth_power(cell) as i128;
    let ghost reach: int = 131072 * c;
    proof {
        assert((2 * ONE) * c == reach && -(2 * ONE) * c == -reach);
        lemma_interpolate_bound(tl as int, tr as int, eu as int, p as int, reach);
        lemma_interpolate_bound(bl as int, br as int, eu as int, p as int, reach);
        assert(0 <= reach * p <= MAX_BLENDED) by (nonlinear_arith)
            requires
                0 <= reach <= 67108864,
                0 <= p <= 35184372088832,
        ;
        assert(-reach * p == -(reach * p)) by (nonlinear_arith);
    }
    let upper: i128 = interpolate(tl, tr, eu, p);
    let lower: i128 = interpolate(bl, br, eu, p);
    let num: i128 = interpolate(upper, lower, ev, p);
    proof {
        lemma_interpolate_bound(upper as int, lower as int, ev as int, p as int, reach * p);
        assert(reach * p * p == 2 * (65536 * c * p * p)) by (nonlinear_arith)
            requires
                reach == 131072 * c,
        ;
        assert(-(reach * p) * p == -(reach * p * p)) by (nonlinear_arith);
    }
    assert(1 <= 65536 * c <= 33554432);
    assert(1 <= 65536 * c * p <= 33554432 * 35184372088832) by (nonlinear_arith)
        requires
            1 <= 65536 * c <= 33554432,
            1 <= p <= 35184372088832,
    ;
    assert(1 <= 65536 * c * p * p <= 33554432 * 35184372088832 * 35184372088832)
        by (nonlinear_arith)
        requires
            1 <= 65536 * c * p <= 33554432 * 35184372088832,
            1 <= p <= 35184372088832,
    ;
    let den: i128 = (ONE as i128) * c * p * p;
    Noise { num, den }
}

} // verus!
