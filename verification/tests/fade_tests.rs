use fire_noise::fade::{ease, fifth_power, MAX_POW5};

#[test]
fn ease_of_zero_is_zero() {
    for d in 0..=512usize {
        assert_eq!(ease(0, d), 0);
    }
}

#[test]
fn ease_of_one_is_one() {
    for d in 0..=512usize {
        assert_eq!(ease(d, d), fifth_power(d));
    }
}

#[test]
fn ease_of_one_half_is_one_half() {
    for half in 1..=256usize {
        assert_eq!(2 * ease(half, 2 * half), fifth_power(2 * half));
    }
    assert_eq!(ease(40, 80), 1_638_400_000);
}

#[test]
fn ease_exact_values() {
    // w = 1/4: w^3 (w (6 w - 15) + 10) = 106 / 1024
    assert_eq!(ease(1, 4), 106);
    // w = 3/4: 918 / 1024
    assert_eq!(ease(3, 4), 918);
    // w = 1/10: 856 / 100000
    assert_eq!(ease(1, 10), 856);
    // w = 1/80
    assert_eq!(ease(1, 80), 62_806);
}

#[test]
fn ease_never_decreases() {
    let cells: [usize; 4] = [1, 80, 333, 512];
    for d in cells {
        let mut last: u64 = 0;
        for n in 0..=d {
            let e: u64 = ease(n, d);
            assert!(e >= last);
            assert!(e <= fifth_power(d));
            last = e;
        }
    }
}

#[test]
fn ease_is_symmetric_about_one_half() {
    let d: usize = 80;
    for n in 0..=d {
        assert_eq!(ease(n, d) + ease(d - n, d), fifth_power(d));
    }
}

#[test]
fn ease_agrees_with_floating_point() {
    let d: usize = 80;
    for n in 0..=d {
        let w: f64 = n as f64 / d as f64;
        let expected: f64 = (w * (w * 6.0 - 15.0) + 10.0) * w * w * w;
        let got: f64 = ease(n, d) as f64 / fifth_power(d) as f64;
        assert!((expected - got).abs() < 1e-12);
    }
}

#[test]
fn fifth_power_values() {
    assert_eq!(fifth_power(0), 0);
    assert_eq!(fifth_power(1), 1);
    assert_eq!(fifth_power(2), 32);
    assert_eq!(fifth_power(80), 3_276_800_000);
    assert_eq!(fifth_power(512), MAX_POW5);
    assert_eq!(MAX_POW5, 1u64 << 45);
}
