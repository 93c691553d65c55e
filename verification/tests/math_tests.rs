use tree_growth::fixed::{Fixed, MAX_RAW, MIN_RAW, ONE_RAW};
use tree_growth::math::{exp, ln, pow, sin_cos, HALF_PI_RAW, PI_RAW, TWO_PI_RAW};

fn fx(value: f64) -> Fixed {
    Fixed::from_raw((value * 1e9).round() as i64)
}

fn close(actual: Fixed, expected: f64, tolerance: f64) -> bool {
    (actual.raw as f64 / 1e9 - expected).abs() <= tolerance
}

#[test]
fn sine_and_cosine_of_the_axes_are_exact_or_nearly_so() {
    let (sine, cosine) = sin_cos(Fixed::zero());
    assert_eq!(sine.raw, 0);
    assert_eq!(cosine.raw, ONE_RAW);
    let (sine, cosine) = sin_cos(Fixed::from_raw(HALF_PI_RAW));
    assert!(close(sine, 1.0, 1e-7));
    assert!(close(cosine, 0.0, 1e-7));
    let (sine, cosine) = sin_cos(Fixed::from_raw(PI_RAW));
    assert!(close(sine, 0.0, 1e-7));
    assert!(close(cosine, -1.0, 1e-7));
}

#[test]
fn sine_and_cosine_follow_the_real_functions() {
    let mut angle = -7.0f64;
    while angle < 7.0 {
        let (sine, cosine) = sin_cos(fx(angle));
        assert!(close(sine, angle.sin(), 1e-6), "sin {}", angle);
        assert!(close(cosine, angle.cos(), 1e-6), "cos {}", angle);
        assert!(sine.raw.abs() <= ONE_RAW && cosine.raw.abs() <= ONE_RAW);
        angle += 0.137;
    }
}

#[test]
fn a_full_turn_changes_nothing() {
    let angle = Fixed::from_raw(123_456_789);
    assert_eq!(sin_cos(angle), sin_cos(Fixed::from_raw(123_456_789 + TWO_PI_RAW)));
    assert_eq!(sin_cos(angle), sin_cos(Fixed::from_raw(123_456_789 - 3 * TWO_PI_RAW)));
}

#[test]
fn exponential_follows_the_real_function() {
    assert_eq!(exp(Fixed::zero()).raw, ONE_RAW);
    assert!(close(exp(fx(1.0)), std::f64::consts::E, 1e-6));
    assert!(close(exp(fx(-1.0)), 1.0 / std::f64::consts::E, 1e-6));
    assert!(close(exp(fx(5.5)), 5.5f64.exp(), 1e-4));
    assert_eq!(exp(fx(23.0)).raw, MAX_RAW);
    assert_eq!(exp(fx(-21.0)).raw, 0);
}

#[test]
fn logarithm_follows_the_real_function() {
    assert_eq!(ln(Fixed::one()).raw, 0);
    assert!(close(ln(fx(std::f64::consts::E)), 1.0, 1e-6));
    assert!(close(ln(fx(0.001)), 0.001f64.ln(), 1e-5));
    assert!(close(ln(fx(123456.0)), 123456f64.ln(), 1e-6));
    assert_eq!(ln(Fixed::zero()).raw, MIN_RAW);
    assert_eq!(ln(fx(-1.0)).raw, MIN_RAW);
}

#[test]
fn powers_are_exact_where_they_can_be() {
    assert_eq!(pow(fx(4.0), Fixed::one()), fx(4.0));
    assert_eq!(pow(fx(4.0), Fixed::zero()), Fixed::one());
    assert_eq!(pow(Fixed::one(), fx(-3.7)), Fixed::one());
    assert_eq!(pow(Fixed::zero(), fx(2.0)).raw, 0);
    assert_eq!(pow(fx(-2.0), fx(2.0)).raw, 0);
}

#[test]
fn powers_follow_the_real_function() {
    assert!(close(pow(fx(2.0), fx(0.5)), 2f64.sqrt(), 1e-6));
    assert!(close(pow(fx(2.0), fx(-1.0)), 0.5, 1e-6));
    assert!(close(pow(fx(1.5), fx(-2.25)), 1.5f64.powf(-2.25), 1e-6));
    assert!(close(pow(fx(0.8), fx(3.0)), 0.512, 1e-6));
}
