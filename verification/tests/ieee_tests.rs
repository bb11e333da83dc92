use rust_engine::math::ieee::{f32_clamp, f32_is_nan, f32_is_zero, f32_lt, f32_neg};
use rust_engine::math::round::f32_round_to_i32;
use rust_engine::math::sqrt::f32_sqrt;

fn sample_bits() -> Vec<u32> {
    let values: [f32; 20] = [
        0.0,
        -0.0,
        1.0,
        -1.0,
        1.5,
        -1.5,
        0.5,
        2.0,
        3.14159,
        -2.71828,
        1e-8,
        -1e-8,
        1e-45,
        -1e-45,
        1e38,
        -1e38,
        f32::INFINITY,
        f32::NEG_INFINITY,
        f32::NAN,
        f32::MIN_POSITIVE,
    ];
    let mut out: Vec<u32> = values.iter().map(|v| v.to_bits()).collect();
    out.push(0x0000_0001);  // smallest subnormal
    out.push(0x807F_FFFF);  // largest negative subnormal
    out.push(0x7F7F_FFFF);  // largest finite
    out.push(0x0080_0000);  // smallest normal
    out
}

#[test]
fn test_lt_matches_hardware() {
    for &a in sample_bits().iter() {
        for &b in sample_bits().iter() {
            let expected = f32::from_bits(a) < f32::from_bits(b);
            assert_eq!(f32_lt(a, b), expected, "lt mismatch at {:08x} {:08x}", a, b);
        }
    }
}

#[test]
fn test_neg_zero_nan_match_hardware() {
    for &a in sample_bits().iter() {
        assert_eq!(f32_neg(a), (-f32::from_bits(a)).to_bits());
        assert_eq!(f32_is_zero(a), f32::from_bits(a) == 0.0);
        assert_eq!(f32_is_nan(a), f32::from_bits(a).is_nan());
    }
}

#[test]
fn test_clamp_matches_hardware() {
    let lo = (-1.5f32).to_bits();
    let hi = 1.5f32.to_bits();
    for &a in sample_bits().iter() {
        let x = f32::from_bits(a);
        let expected = if x.is_nan() {
            a
        } else {
            x.clamp(-1.5, 1.5).to_bits()
        };
        assert_eq!(f32_clamp(a, lo, hi), expected, "clamp mismatch at {:08x}", a);
    }
}

#[test]
fn test_sqrt_matches_hardware() {
    for &a in sample_bits().iter() {
        let r = f32_sqrt(a);
        let expected = f32::from_bits(a).sqrt();
        if expected.is_nan() {
            assert!(f32::from_bits(r).is_nan(), "sqrt of {:08x} should be NaN", a);
        } else {
            assert_eq!(r, expected.to_bits(), "sqrt mismatch at {:08x}", a);
        }
    }
}

#[test]
fn test_sqrt_exact_squares() {
    for k in 1u32..60 {
        let x = (k * k) as f32;
        assert_eq!(f32::from_bits(f32_sqrt(x.to_bits())), k as f32);
    }
}

#[test]
fn test_round_to_i32_matches_hardware() {
    let values: [f32; 18] = [
        0.0, -0.0, 0.4, 0.5, 0.6, -0.5, 1.5, 2.5, -2.5, 123.456, -9876.543, 1e-30,
        2147483500.0, 2147483800.0, -2147483800.0, 1e30, f32::INFINITY, f32::NEG_INFINITY,
    ];
    for &x in values.iter() {
        let expected = x.round() as i32;
        assert_eq!(f32_round_to_i32(x.to_bits()), expected, "round mismatch at {}", x);
    }
    assert_eq!(f32_round_to_i32(f32::NAN.to_bits()), 0);
}
