//! The quintic fade curve `ease(w) = w^3 (w (6 w - 15) + 10)`.
//!
//! A weight `w` in `[0, 1]` is the fraction `n / d` of two integers.  Its
//! image under the curve is again a fraction: `ease_num(n, d) / pow5(d)`.

use vstd::prelude::*;
use crate::lattice::MAX_CELL;

verus! {

/// Fifth power, the denominator of an eased weight.
pub open spec fn pow5(d: int) -> int {
    d * d * d * d * d
}

/// Numerator of `ease(n / d)` over the denominator `pow5(d)`: the curve
/// `w^3 (w (6 w - 15) + 10)` with both sides multiplied by `d^5`.
pub open spec fn ease_num(n: int, d: int) -> int {
    n * n * n * (n * (6 * n - 15 * d) + 10 * d * d)
}

/// `ease(0) = 0` and `ease(1) = 1`, exactly.
pub proof fn lemma_ease_endpoints(d: int)
    ensures
        ease_num(0, d) == 0,
        ease_num(d, d) == pow5(d),
{
    assert(ease_num(0, d) == 0) by (nonlinear_arith);
    assert(d * d * d * (d * (6 * d - 15 * d) + 10 * d * d) == d * d * d * d * d)
        by (nonlinear_arith);
}

/// `ease(1/2) = 1/2`, exactly.
pub proof fn lemma_ease_half(n: int)
    ensures
        2 * ease_num(n, 2 * n) == pow5(2 * n),
{
    assert(2 * (n * n * n * (n * (6 * n - 15 * (2 * n)) + 10 * (2 * n) * (2 * n)))
        == (2 * n) * (2 * n) * (2 * n) * (2 * n) * (2 * n)) by (nonlinear_arith);
}

proof fn lemma_ease_expanded(n: int, d: int)
    by (nonlinear_arith)
    ensures
        ease_num(n, d) == 6 * (n * n * n * n * n) - 15 * ((n * n * n * n) * d)
            + 10 * ((n * n * n) * (d * d)),
{
}

proof fn lemma_fifth_power_step(n: int)
    by (nonlinear_arith)
    ensures
        (n + 1) * (n + 1) * (n + 1) * (n + 1) * (n + 1) - n * n * n * n * n
            == 5 * (n * n * n * n) + 10 * (n * n * n) + 10 * (n * n) + 5 * n + 1,
{
}

proof fn lemma_fourth_power_step(n: int)
    by (nonlinear_arith)
    ensures
        (n + 1) * (n + 1) * (n + 1) * (n + 1) - n * n * n * n
            == 4 * (n * n * n) + 6 * (n * n) + 4 * n + 1,
{
}

proof fn lemma_third_power_step(n: int)
    by (nonlinear_arith)
    ensures
        (n + 1) * (n + 1) * (n + 1) - n * n * n == 3 * (n * n) + 3 * n + 1,
{
}

proof fn lemma_quadratic_shift(a: int, b: int, c: int, m: int, s: int)
    by (nonlinear_arith)
    ensures
        a * ((m + s) * (m + s)) - b * (m + s) + c
            == a * (s * s) + (2 * a * m - b) * s + (a * (m * m) - b * m + c),
{
}

proof fn lemma_step_linear_coefficient(n: int)
    by (nonlinear_arith)
    ensures
        2 * (10 * (3 * (n * n) + 3 * n + 1)) * (n + 1)
            - 15 * (4 * (n * n * n) + 6 * (n * n) + 4 * n + 1)
            == 30 * (n * n) + 20 * n + 5,
{
}

proof fn lemma_step_constant_coefficient(n: int)
    by (nonlinear_arith)
    ensures
        (10 * (3 * (n * n) + 3 * n + 1)) * ((n + 1) * (n + 1))
            - (15 * (4 * (n * n * n) + 6 * (n * n) + 4 * n + 1)) * (n + 1)
            + 6 * (5 * (n * n * n * n) + 10 * (n * n * n) + 10 * (n * n) + 5 * n + 1)
            == 10 * (n * n) + 5 * n + 1,
{
}

/// One step of the numerator along the curve does not go down.
proof fn lemma_ease_step(n: int, d: int)
    requires
        0 <= n < d,
    ensures
        ease_num(n, d) <= ease_num(n + 1, d),
{
    let m = n + 1;
    let s = d - m;
    let d3 = 3 * (n * n) + 3 * n + 1;
    let d4 = 4 * (n * n * n) + 6 * (n * n) + 4 * n + 1;
    let d5 = 5 * (n * n * n * n) + 10 * (n * n * n) + 10 * (n * n) + 5 * n + 1;
    lemma_ease_expanded(n, d);
    lemma_ease_expanded(m, d);
    lemma_fifth_power_step(n);
    lemma_fourth_power_step(n);
    lemma_third_power_step(n);
    assert((m * m * m * m) * d - (n * n * n * n) * d == d4 * d) by (nonlinear_arith)
        requires
            m * m * m * m - n * n * n * n == d4,
    ;
    assert((m * m * m) * (d * d) - (n * n * n) * (d * d) == d3 * (d * d)) by (nonlinear_arith)
        requires
            m * m * m - n * n * n == d3,
    ;
    let a = 10 * d3;
    let b = 15 * d4;
    let c = 6 * d5;
    assert(a * (d * d) == 10 * (d3 * (d * d))) by (nonlinear_arith)
        requires
            a == 10 * d3,
    ;
    assert(b * d == 15 * (d4 * d)) by (nonlinear_arith)
        requires
            b == 15 * d4,
    ;
    assert(ease_num(m, d) - ease_num(n, d) == a * (d * d) - b * d + c);
    lemma_quadratic_shift(a, b, c, m, s);
    lemma_step_linear_coefficient(n);
    lemma_step_constant_coefficient(n);
    let lin = 30 * (n * n) + 20 * n + 5;
    let con = 10 * (n * n) + 5 * n + 1;
    assert(ease_num(m, d) - ease_num(n, d) == a * (s * s) + lin * s + con);
    assert(n * n >= 0) by (nonlinear_arith);
    assert(a * (s * s) >= 0) by (nonlinear_arith)
        requires
            a >= 0,
    ;
    assert(lin * s >= 0) by (nonlinear_arith)
        requires
            lin >= 0,
            s >= 0,
    ;
}

/// The curve never decreases on `[0, 1]`: for weights `a / d <= b / d`
/// in that interval, `ease(a / d) <= ease(b / d)`.
pub proof fn lemma_ease_monotonic(a: int, b: int, d: int)
    requires
        0 <= a <= b <= d,
    ensures
        ease_num(a, d) <= ease_num(b, d),
    decreases b - a,
{
    if a < b {
        lemma_ease_monotonic(a, b - 1, d);
        lemma_ease_step(b - 1, d);
    }
}

/// On `[0, 1]` the curve stays in `[0, 1]`.
pub proof fn lemma_ease_range(n: int, d: int)
    requires
        0 <= n <= d,
    ensures
        0 <= ease_num(n, d) <= pow5(d),
{
    lemma_ease_endpoints(d);
    lemma_ease_monotonic(0, n, d);
    lemma_ease_monotonic(n, d, d);
}

/// Fifth power of [`MAX_CELL`], the largest denominator of an eased weight.
pub const MAX_POW5: u64 = 35184372088832;

/// Computes [`pow5`].
pub fn fifth_power(d: usize) -> (p: u64)
    requires
        d <= MAX_CELL,
    ensures
        p == pow5(d as int),
        p <= MAX_POW5,
        d >= 1 ==> p >= 1,
{
    let w: u64 = d as u64;
    assert(w * w <= 262144) by (nonlinear_arith)
        requires
            w <= 512,
    ;
    let w2: u64 = w * w;
    assert(w2 * w2 <= 68719476736) by (nonlinear_arith)
        requires
            w2 <= 262144,
    ;
    let w4: u64 = w2 * w2;
    assert(w4 * w <= 35184372088832) by (nonlinear_arith)
        requires
            w4 <= 68719476736,
            w <= 512,
    ;
    assert(w4 * w == w * w * w * w * w) by (nonlinear_arith)
        requires
            w4 == (w * w) * (w * w),
    ;
    assert(w >= 1 ==> w4 * w >= 1) by (nonlinear_arith)
        requires
            w4 == (w * w) * (w * w),
            w >= 0,
    ;
    w4 * w
}

/// Computes [`ease_num`] for a weight `n / d` in `[0, 1]`.
pub fn ease(n: usize, d: usize) -> (e: u64)
    requires
        n <= d <= MAX_CELL,
    ensures
        e == ease_num(n as int, d as int),
        e <= pow5(d as int),
{
    let w: u64 = n as u64;
    let c: u64 = d as u64;
    proof {
        lemma_ease_range(n as int, d as int);
        assert(0 <= w * w <= 262144 && 0 <= c * c <= 262144 && 0 <= w * c <= 262144)
            by (nonlinear_arith)
            requires
                0 <= w <= c <= 512,
        ;
        assert(w * w * w <= 134217728) by (nonlinear_arith)
            requires
                0 <= w * w <= 262144,
                0 <= w <= 512,
        ;
        assert(8 * (6 * (w * w) - 15 * (w * c) + 10 * (c * c))
            == 3 * ((4 * w - 5 * c) * (4 * w - 5 * c)) + 5 * (c * c)) by (nonlinear_arith);
        assert((4 * w - 5 * c) * (4 * w - 5 * c) >= 0) by (nonlinear_arith);
    }
    let cube: u64 = w * w * w;
    let bracket: u64 = 10 * (c * c) + 6 * (w * w) - 15 * (w * c);
    proof {
        assert(bracket == w * (6 * w - 15 * c) + 10 * c * c) by (nonlinear_arith)
            requires
                bracket == 10 * (c * c) + 6 * (w * w) - 15 * (w * c),
        ;
        assert(cube * bracket <= 134217728 * 4194304) by (nonlinear_arith)
            requires
                cube <= 134217728,
                bracket <= 4194304,
        ;
    }
    cube * bracket
}

} // verus!
