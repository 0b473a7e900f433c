use fire_noise::gradient::{Gradient, GradientGrid, ONE};
use fire_noise::sampler::{sample, Noise, MAX_DEN};

fn grid_of(rows: usize, cols: usize, vectors: &[(i32, i32)]) -> GradientGrid {
    let mut grid: GradientGrid = GradientGrid::new(rows, cols).unwrap();
    for row in 0..rows {
        for col in 0..cols {
            let (x, y) = vectors[row * cols + col];
            grid.set(row, col, Gradient::new(x, y).unwrap());
        }
    }
    grid
}

fn compass_grid() -> GradientGrid {
    grid_of(
        2,
        3,
        &[(ONE, 0), (0, ONE), (46341, 46341), (-ONE, 0), (0, -ONE), (-46341, 46341)],
    )
}

/// The same blend in floating point, from gradients of length one.
fn float_noise(x: usize, y: usize, vectors: &[(f64, f64)], cols: usize, cell: usize) -> f64 {
    let fade = |a0: f64, a1: f64, w: f64| (a1 - a0) * ((w * (w * 6.0 - 15.0) + 10.0) * w * w * w) + a0;
    let left: usize = x / cell;
    let top: usize = y / cell;
    let u: f64 = (x % cell) as f64 / cell as f64;
    let v: f64 = (y % cell) as f64 / cell as f64;
    let dot = |g: (f64, f64), ox: f64, oy: f64| g.0 * ox + g.1 * oy;
    let tl: f64 = dot(vectors[top * cols + left], u, v);
    let tr: f64 = dot(vectors[top * cols + left + 1], u - 1.0, v);
    let bl: f64 = dot(vectors[(top + 1) * cols + left], u, v - 1.0);
    let br: f64 = dot(vectors[(top + 1) * cols + left + 1], u - 1.0, v - 1.0);
    fade(fade(tl, tr, u), fade(bl, br, u), v)
}

#[test]
fn noise_is_zero_on_the_first_corner() {
    let n: Noise = sample(0, 0, &compass_grid(), 80);
    assert_eq!(n.num(), 0);
    assert_eq!(n.den(), 56_294_995_342_131_200_000_000_000);
}

#[test]
fn noise_is_zero_on_every_corner_whatever_the_gradients() {
    let grids: [GradientGrid; 2] = [compass_grid(), GradientGrid::new(2, 3).unwrap()];
    for grid in &grids {
        assert_eq!(sample(0, 0, grid, 80).num(), 0);
        assert_eq!(sample(80, 0, grid, 80).num(), 0);
    }
    let tall: GradientGrid = grid_of(
        3,
        2,
        &[(0, ONE), (ONE, 0), (46341, -46341), (-ONE, 0), (0, -ONE), (ONE, 0)],
    );
    assert_eq!(sample(0, 80, &tall, 80).num(), 0);
    assert_eq!(sample(0, 7, &tall, 7).num(), 0);
}

#[test]
fn noise_in_the_centre_is_the_average_of_the_corner_products() {
    // corner products at offsets of half a cell: 40, 40, -40, 40 times ONE
    let n: Noise = sample(40, 40, &compass_grid(), 80);
    assert_eq!(n.num(), 14_073_748_835_532_800_000_000_000);
    assert_eq!(n.den(), 56_294_995_342_131_200_000_000_000);
    assert_eq!(4 * n.num(), n.den());
}

#[test]
fn noise_exact_values() {
    let grid: GradientGrid = grid_of(2, 2, &[(ONE, 0), (0, ONE), (-ONE, 0), (0, -ONE)]);
    let n: Noise = sample(1, 2, &grid, 4);
    assert_eq!(n.num(), 14_227_079_168);
    assert_eq!(n.den(), 274_877_906_944);
    // 53 / 1024
    assert_eq!(n.num() * 1024, n.den() * 53);

    let n: Noise = sample(10, 70, &compass_grid(), 80);
    assert_eq!(n.num(), -6_577_790_962_892_800_000_000_000);
    let n: Noise = sample(93, 17, &compass_grid(), 80);
    assert_eq!(n.num(), 12_929_888_130_922_955_579_096_088);
    let n: Noise = sample(159, 79, &compass_grid(), 80);
    assert_eq!(n.num(), 757_387_422_390_944_955_560);
}

#[test]
fn noise_on_a_lattice_line_ignores_the_far_corners() {
    let near: GradientGrid = grid_of(2, 2, &[(ONE, 0), (0, ONE), (0, ONE), (ONE, 0)]);
    let far: GradientGrid = grid_of(2, 2, &[(ONE, 0), (-ONE, 0), (0, ONE), (0, -ONE)]);
    for y in 0..80usize {
        assert_eq!(sample(0, y, &near, 80).num(), sample(0, y, &far, 80).num());
    }
    let near: GradientGrid = grid_of(2, 2, &[(ONE, 0), (0, ONE), (0, ONE), (ONE, 0)]);
    let far: GradientGrid = grid_of(2, 2, &[(ONE, 0), (0, ONE), (-ONE, 0), (0, -ONE)]);
    for x in 0..80usize {
        assert_eq!(sample(x, 0, &near, 80).num(), sample(x, 0, &far, 80).num());
    }
}

#[test]
fn noise_agrees_with_floating_point() {
    let steps: usize = 12;
    let mut fixed: Vec<(i32, i32)> = Vec::new();
    let mut float: Vec<(f64, f64)> = Vec::new();
    for k in 0..steps {
        let angle: f64 = 0.7 + 2.0 * std::f64::consts::PI * (k * k) as f64 / 7.0;
        let x: i32 = (angle.cos() * ONE as f64).round() as i32;
        let y: i32 = (angle.sin() * ONE as f64).round() as i32;
        fixed.push((x, y));
        float.push((x as f64 / ONE as f64, y as f64 / ONE as f64));
    }
    let grid: GradientGrid = grid_of(3, 4, &fixed);
    let cell: usize = 37;
    for y in 0..2 * cell {
        for x in 0..3 * cell {
            let n: Noise = sample(x, y, &grid, cell);
            let got: f64 = n.num() as f64 / n.den() as f64;
            let expected: f64 = float_noise(x, y, &float, 4, cell);
            assert!((got - expected).abs() < 1e-12);
        }
    }
}

#[test]
fn noise_denominator_depends_on_the_cell_alone() {
    let grid: GradientGrid = compass_grid();
    assert_eq!(sample(1, 0, &grid, 1).den(), 65536);
    assert_eq!(sample(1, 1, &grid, 2).den(), 65536 * 2048);
    let wide: GradientGrid = GradientGrid::new(2, 2).unwrap();
    // 2^16 * 2^9 * 2^45 * 2^45
    assert_eq!(sample(511, 511, &wide, 512).den(), 1i128 << 115);
}

#[test]
fn noise_with_the_largest_cell_does_not_overflow() {
    let grid: GradientGrid = grid_of(2, 2, &[(ONE, 0), (-ONE, 0), (0, ONE), (0, -ONE)]);
    for (x, y) in [(1usize, 1usize), (511, 511), (256, 256), (511, 1), (1, 511)] {
        let n: Noise = sample(x, y, &grid, 512);
        assert!(n.num().abs() <= 2 * n.den());
    }
    // all four corner products are half a cell edge times ONE
    let inward: GradientGrid = grid_of(2, 2, &[(ONE, 0), (-ONE, 0), (ONE, 0), (-ONE, 0)]);
    let n: Noise = sample(256, 256, &inward, 512);
    assert_eq!(2 * n.num(), n.den());
}

#[test]
fn noise_new_checks_the_denominator() {
    assert!(Noise::new(1, 0).is_none());
    assert!(Noise::new(1, -1).is_none());
    assert!(Noise::new(0, MAX_DEN + 1).is_none());
    assert!(Noise::new(i128::MIN, i128::MAX).is_none());
    let n: Noise = Noise::new(-7, MAX_DEN).unwrap();
    assert_eq!((n.num(), n.den()), (-7, MAX_DEN));
    let n: Noise = Noise::new(i128::MAX, 1).unwrap();
    assert_eq!((n.num(), n.den()), (i128::MAX, 1));
    assert_eq!(MAX_DEN, i128::MAX / 255);
}
