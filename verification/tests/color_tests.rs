use fire_noise::color::{colorize, flame, red, Rgb};
use fire_noise::sampler::Noise;

fn noise(num: i128, den: i128) -> Noise {
    Noise::new(num, den).unwrap()
}

#[test]
fn red_is_the_noise_scaled_to_a_byte() {
    assert_eq!(red(noise(0, 1)), 0);
    assert_eq!(red(noise(1, 2)), 127);
    assert_eq!(red(noise(1, 4)), 63);
    assert_eq!(red(noise(1, 255)), 1);
    assert_eq!(red(noise(1, 256)), 0);
    assert_eq!(red(noise(254, 255)), 254);
    assert_eq!(red(noise(53, 1024)), 13);
    assert_eq!(red(noise(999, 1000)), 254);
}

#[test]
fn red_saturates_at_both_ends() {
    assert_eq!(red(noise(-1, 1000)), 0);
    assert_eq!(red(noise(-1, 1)), 0);
    assert_eq!(red(noise(i128::MIN, 1)), 0);
    assert_eq!(red(noise(1, 1)), 255);
    assert_eq!(red(noise(2, 1)), 255);
    assert_eq!(red(noise(i128::MAX, 1)), 255);
    assert_eq!(red(noise(i128::MAX, i128::MAX / 255)), 255);
    assert_eq!(red(noise(i128::MAX / 255 - 1, i128::MAX / 255)), 254);
}

#[test]
fn red_agrees_with_the_floating_point_conversion() {
    let den: i128 = 1000;
    for num in -1500..=1500i128 {
        let expected: u8 = (255.0 * (num as f64 / den as f64)) as u8;
        assert_eq!(red(noise(num, den)), expected);
    }
}

#[test]
fn flame_exact_values() {
    assert_eq!(flame(0), Rgb { r: 0, g: 0, b: 0 });
    assert_eq!(flame(64), Rgb { r: 64, g: 0, b: 0 });
    assert_eq!(flame(65), Rgb { r: 65, g: 1, b: 0 });
    assert_eq!(flame(66), Rgb { r: 66, g: 3, b: 0 });
    assert_eq!(flame(128), Rgb { r: 128, g: 96, b: 0 });
    assert_eq!(flame(129), Rgb { r: 129, g: 97, b: 2 });
    assert_eq!(flame(200), Rgb { r: 200, g: 204, b: 144 });
    assert_eq!(flame(233), Rgb { r: 233, g: 253, b: 210 });
    assert_eq!(flame(234), Rgb { r: 234, g: 255, b: 212 });
    assert_eq!(flame(235), Rgb { r: 235, g: 255, b: 214 });
    assert_eq!(flame(255), Rgb { r: 255, g: 255, b: 254 });
}

#[test]
fn green_is_absent_exactly_up_to_64() {
    for r in 0..=255u8 {
        assert_eq!(flame(r).g == 0, r <= 64);
    }
}

#[test]
fn blue_is_absent_exactly_up_to_128() {
    for r in 0..=255u8 {
        assert_eq!(flame(r).b == 0, r <= 128);
    }
}

#[test]
fn flame_agrees_with_floating_point_and_wrapping_bytes() {
    for r in 0..=255u8 {
        let g: u8 = if r > 64 { ((r as f32 - 64.0) * 1.5) as u8 } else { 0 };
        let b: u8 = if r > 128 { (r - 128).wrapping_mul(2) } else { 0 };
        assert_eq!(flame(r), Rgb { r, g, b });
    }
}

#[test]
fn flame_is_a_function_of_red() {
    for r in 0..=255u8 {
        assert_eq!(flame(r), flame(r));
        assert_eq!(flame(r).r, r);
    }
}

#[test]
fn colorize_is_flame_of_red() {
    assert_eq!(colorize(noise(0, 1)), Rgb { r: 0, g: 0, b: 0 });
    assert_eq!(colorize(noise(-3, 7)), Rgb { r: 0, g: 0, b: 0 });
    assert_eq!(colorize(noise(1, 4)), Rgb { r: 63, g: 0, b: 0 });
    assert_eq!(colorize(noise(1, 2)), Rgb { r: 127, g: 94, b: 0 });
    assert_eq!(colorize(noise(3, 4)), Rgb { r: 191, g: 190, b: 126 });
    assert_eq!(colorize(noise(1, 1)), Rgb { r: 255, g: 255, b: 254 });
    assert_eq!(colorize(noise(5, 2)), Rgb { r: 255, g: 255, b: 254 });
    for num in 0..=300i128 {
        let n: Noise = noise(num, 300);
        assert_eq!(colorize(n), flame(red(n)));
    }
}
