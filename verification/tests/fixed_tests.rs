use tree_growth::fixed::{clamp_wide, floor_div, isqrt_wide, Fixed, MAX_RAW, MIN_RAW, ONE_RAW};

fn fx(whole: i64, billionths: i64) -> Fixed {
    Fixed::from_raw(whole * ONE_RAW + billionths)
}

#[test]
fn from_int_scales_and_saturates() {
    assert_eq!(Fixed::from_int(3).raw, 3_000_000_000);
    assert_eq!(Fixed::from_int(-2).raw, -2_000_000_000);
    assert_eq!(Fixed::from_int(i64::MAX).raw, MAX_RAW);
    assert_eq!(Fixed::from_int(i64::MIN).raw, MIN_RAW);
    assert_eq!(Fixed::zero().raw, 0);
    assert_eq!(Fixed::one().raw, ONE_RAW);
}

#[test]
fn sums_and_differences_saturate() {
    assert_eq!(fx(1, 500_000_000).plus(fx(2, 250_000_000)), fx(3, 750_000_000));
    assert_eq!(fx(1, 0).minus(fx(2, 500_000_000)), Fixed::from_raw(-1_500_000_000));
    assert_eq!(Fixed::from_raw(MAX_RAW).plus(fx(1, 0)).raw, MAX_RAW);
    assert_eq!(Fixed::from_raw(MIN_RAW).minus(fx(1, 0)).raw, MIN_RAW);
    assert_eq!(Fixed::from_raw(i64::MIN).negated().raw, MAX_RAW);
    assert_eq!(fx(2, 0).negated(), Fixed::from_raw(-2_000_000_000));
    assert_eq!(Fixed::from_raw(-7).abs().raw, 7);
}

#[test]
fn products_round_down() {
    assert_eq!(fx(1, 500_000_000).times(fx(2, 0)), fx(3, 0));
    assert_eq!(Fixed::from_raw(1).times(Fixed::from_raw(1)).raw, 0);
    assert_eq!(Fixed::from_raw(-1).times(Fixed::from_raw(1)).raw, -1);
    assert_eq!(fx(0, 500_000_000).times(fx(0, 500_000_000)), fx(0, 250_000_000));
    assert_eq!(Fixed::from_raw(MAX_RAW).times(fx(2, 0)).raw, MAX_RAW);
    assert_eq!(Fixed::from_raw(MAX_RAW).times(Fixed::from_raw(-2_000_000_000)).raw, MIN_RAW);
}

#[test]
fn quotients_round_down() {
    assert_eq!(fx(1, 0).over(fx(4, 0)), fx(0, 250_000_000));
    assert_eq!(fx(1, 0).over(fx(3, 0)).raw, 333_333_333);
    assert_eq!(Fixed::from_raw(-1_000_000_000).over(fx(3, 0)).raw, -333_333_334);
    assert_eq!(fx(1, 0).over(Fixed::from_raw(-3_000_000_000)).raw, -333_333_334);
    assert_eq!(fx(6, 0).scaled(fx(2, 0), fx(4, 0)), fx(3, 0));
    assert_eq!(Fixed::from_raw(7).scaled(Fixed::from_raw(1), Fixed::from_raw(2)).raw, 3);
    assert_eq!(Fixed::from_raw(MAX_RAW).over(Fixed::from_raw(1)).raw, MAX_RAW);
}

#[test]
fn square_roots_round_down() {
    assert_eq!(fx(4, 0).sqrt(), fx(2, 0));
    assert_eq!(fx(2, 0).sqrt().raw, 1_414_213_562);
    assert_eq!(Fixed::zero().sqrt().raw, 0);
    assert_eq!(Fixed::from_raw(-5).sqrt().raw, 0);
    assert_eq!(isqrt_wide(0), 0);
    assert_eq!(isqrt_wide(24), 4);
    assert_eq!(isqrt_wide(25), 5);
    assert_eq!(isqrt_wide(u128::MAX), u64::MAX);
}

#[test]
fn floors_go_toward_negative_infinity() {
    assert_eq!(fx(2, 999_999_999).floor(), 2);
    assert_eq!(Fixed::from_raw(-1).floor(), -1);
    assert_eq!(Fixed::from_raw(-1_000_000_000).floor(), -1);
    assert_eq!(floor_div(-7, 2), -4);
    assert_eq!(floor_div(7, 2), 3);
    assert_eq!(floor_div(-8, 2), -4);
    assert_eq!(clamp_wide(i128::MAX), MAX_RAW);
    assert_eq!(clamp_wide(-5), -5);
}
