use fire_noise::lattice::{corner_count, frac, MAX_CELL};

#[test]
fn corner_count_is_cells_plus_one() {
    assert_eq!(corner_count(160, 80), Some(3));
    assert_eq!(corner_count(80, 80), Some(2));
    assert_eq!(corner_count(640, 80), Some(9));
    assert_eq!(corner_count(480, 80), Some(7));
}

#[test]
fn corner_count_rounds_partial_cells_up() {
    assert_eq!(corner_count(81, 80), Some(3));
    assert_eq!(corner_count(1, 80), Some(2));
    assert_eq!(corner_count(159, 80), Some(3));
    assert_eq!(corner_count(161, 80), Some(4));
}

#[test]
fn corner_count_of_empty_axis_is_one() {
    assert_eq!(corner_count(0, 80), Some(1));
    assert_eq!(corner_count(0, 1), Some(1));
}

#[test]
fn corner_count_reports_overflow() {
    assert_eq!(corner_count(usize::MAX, 1), None);
    assert_eq!(corner_count(usize::MAX - 1, 1), Some(usize::MAX));
    assert_eq!(corner_count(usize::MAX, 2), Some(usize::MAX / 2 + 2));
}

#[test]
fn every_pixel_lies_between_two_corners() {
    let cells: [usize; 5] = [1, 2, 7, 80, 512];
    let extents: [usize; 6] = [1, 2, 79, 80, 81, 1000];
    for cell in cells {
        for extent in extents {
            let count: usize = corner_count(extent, cell).unwrap();
            for x in 0..extent {
                assert!(x / cell + 1 < count);
            }
            assert!((extent - 1) / cell + 2 == count);
        }
    }
}

#[test]
fn frac_is_zero_on_lattice_lines() {
    for k in 0..20usize {
        assert_eq!(frac(k * 80, 80), 0);
        assert_eq!(frac(k * 7, 7), 0);
        assert_eq!(frac(k, 1), 0);
    }
}

#[test]
fn frac_is_the_remainder_elsewhere() {
    assert_eq!(frac(1, 80), 1);
    assert_eq!(frac(79, 80), 79);
    assert_eq!(frac(81, 80), 1);
    assert_eq!(frac(200, 80), 40);
    assert_eq!(frac(usize::MAX, 512), 511);
}

#[test]
fn max_cell_is_512() {
    assert_eq!(MAX_CELL, 512);
}
