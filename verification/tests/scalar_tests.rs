use termdaw::builder::MIN_SQUARE_PARAM_BITS;
use termdaw::extensions::{clamp_cutoff, MAX_CUTOFF_BITS, MINUS_ONE_BITS, SEED_PEAK_BITS};
use termdaw::floww::NOTE_ON_THRESHOLD_BITS;
use termdaw::graph::{FULL_WET_BITS, MAX_ANGLE_BITS, MIN_ANGLE_BITS};
use termdaw::scalar::{Scalar, ONE_BITS};

fn s(x: f32) -> Scalar {
    Scalar::from_bits(x.to_bits())
}

fn f(x: Scalar) -> f32 {
    f32::from_bits(x.to_bits())
}

fn grid() -> Vec<f32> {
    vec![
        0.0,
        -0.0,
        1.0,
        -1.0,
        0.001,
        0.0011,
        0.000999,
        -0.001,
        0.5,
        -0.5,
        90.0,
        -90.0,
        91.0,
        -91.0,
        20000.0,
        20001.0,
        1.0e-40,
        -1.0e-40,
        f32::MIN_POSITIVE,
        f32::MAX,
        f32::MIN,
        f32::INFINITY,
        f32::NEG_INFINITY,
        f32::NAN,
        -f32::NAN,
        f32::from_bits(0x7F80_0001),
        f32::from_bits(0xFFFF_FFFF),
    ]
}

#[test]
fn constants_are_the_bit_patterns_of_their_values() {
    assert_eq!(NOTE_ON_THRESHOLD_BITS, 0.001f32.to_bits());
    assert_eq!(SEED_PEAK_BITS, 0.000001f32.to_bits());
    assert_eq!(MINUS_ONE_BITS, (-1.0f32).to_bits());
    assert_eq!(MAX_CUTOFF_BITS, 20000.0f32.to_bits());
    assert_eq!(MAX_ANGLE_BITS, 90.0f32.to_bits());
    assert_eq!(MIN_ANGLE_BITS, (-90.0f32).to_bits());
    assert_eq!(FULL_WET_BITS, 1.0f32.to_bits());
    assert_eq!(ONE_BITS, 1.0f32.to_bits());
    assert_eq!(MIN_SQUARE_PARAM_BITS, 0.0001f32.to_bits());
    assert_eq!(Scalar::zero().to_bits(), 0.0f32.to_bits());
    assert_eq!(Scalar::one().to_bits(), 1.0f32.to_bits());
}

#[test]
fn less_than_agrees_with_single_precision() {
    for a in grid() {
        for b in grid() {
            assert_eq!(s(a).lt(&s(b)), a < b, "{} < {}", a, b);
            assert_eq!(s(a).gt(&s(b)), a > b, "{} > {}", a, b);
        }
    }
}

#[test]
fn min_and_max_agree_with_single_precision() {
    for a in grid() {
        for b in grid() {
            let lo = f(s(a).min(s(b)));
            let hi = f(s(a).max(s(b)));
            let want_lo = a.min(b);
            let want_hi = a.max(b);
            assert!(lo == want_lo || (lo.is_nan() && want_lo.is_nan()), "min({}, {}) = {}", a, b, lo);
            assert!(hi == want_hi || (hi.is_nan() && want_hi.is_nan()), "max({}, {}) = {}", a, b, hi);
        }
    }
}

#[test]
fn nan_and_zero_are_recognised() {
    for a in grid() {
        assert_eq!(s(a).is_nan(), a.is_nan());
        assert_eq!(s(a).is_zero(), a == 0.0);
    }
}

#[test]
fn cutoff_is_clamped_into_range() {
    assert_eq!(f(clamp_cutoff(s(440.0))), 440.0);
    assert_eq!(f(clamp_cutoff(s(-3.0))), 0.0);
    assert_eq!(f(clamp_cutoff(s(30000.0))), 20000.0);
    assert_eq!(f(clamp_cutoff(s(f32::NAN))), 20000.0);
}
