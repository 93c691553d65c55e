use tree_growth::fixed::{Fixed, MAX_RAW, ONE_RAW};
use tree_growth::math::{HALF_PI_RAW, PI_RAW};
use tree_growth::vector::Vec3;

fn fx(value: f64) -> Fixed {
    Fixed::from_raw((value * 1e9).round() as i64)
}

fn v(x: f64, y: f64, z: f64) -> Vec3 {
    Vec3::new(fx(x), fx(y), fx(z))
}

fn near(a: Vec3, b: Vec3, tolerance: i64) -> bool {
    (a.x.raw - b.x.raw).abs() <= tolerance
        && (a.y.raw - b.y.raw).abs() <= tolerance
        && (a.z.raw - b.z.raw).abs() <= tolerance
}

#[test]
fn sums_products_and_lengths() {
    assert_eq!(v(1.0, 2.0, 3.0).plus(v(0.5, -2.0, 1.0)), v(1.5, 0.0, 4.0));
    assert_eq!(v(1.0, 2.0, 3.0).minus(v(0.5, -2.0, 1.0)), v(0.5, 4.0, 2.0));
    assert_eq!(v(1.0, -2.0, 3.0).scaled_by(fx(2.0)), v(2.0, -4.0, 6.0));
    assert_eq!(v(1.0, 2.0, 3.0).dot(v(4.0, -5.0, 6.0)), fx(12.0));
    assert_eq!(v(1.0, 0.0, 0.0).cross(v(0.0, 1.0, 0.0)), v(0.0, 0.0, 1.0));
    assert_eq!(v(3.0, 4.0, 0.0).length(), fx(5.0));
    assert_eq!(v(1.0, 1.0, 1.0).length().raw, 1_732_050_807);
    assert_eq!(v(3.0, 4.0, 0.0).squared_norm_wide(), 25_000_000_000_000_000_000);
    assert_eq!(v(1.0, 2.0, 3.0).distance(v(1.0, 2.0, 5.0)), fx(2.0));
    let far = Vec3::new(Fixed::from_raw(MAX_RAW), Fixed::from_raw(MAX_RAW), Fixed::from_raw(MAX_RAW));
    assert_eq!(far.length().raw, MAX_RAW);
}

#[test]
fn a_vector_without_length_normalizes_to_up() {
    assert_eq!(Vec3::zero().normalized(), Vec3::up());
    assert_eq!(v(0.0, 0.0, 7.0).normalized(), v(0.0, 0.0, 1.0));
    assert_eq!(v(3.0, 4.0, 0.0).normalized(), v(0.6, 0.8, 0.0));
    assert_eq!(Vec3::up(), v(0.0, 1.0, 0.0));
    assert_eq!(Vec3::down(), v(0.0, -1.0, 0.0));
}

#[test]
fn distances_are_compared_exactly() {
    assert!(v(0.0, 0.0, 0.0).within_distance(v(3.0, 4.0, 0.0), fx(5.0)));
    assert!(!v(0.0, 0.0, 0.0).within_distance(v(3.0, 4.0, 0.0), Fixed::from_raw(4_999_999_999)));
    assert!(v(1.0, 1.0, 1.0).within_distance(v(1.0, 1.0, 1.0), Fixed::zero()));
    assert!(!v(1.0, 1.0, 1.0).within_distance(v(1.0, 1.0, 1.0), Fixed::from_raw(-1)));
}

#[test]
fn angles_are_compared_by_cosines() {
    let quarter = Fixed::from_raw(HALF_PI_RAW / 2);
    assert!(v(0.0, 1.0, 0.0).within_angle(v(0.0, 2.0, 0.0), Fixed::zero()));
    assert!(v(0.5, 1.0, 0.0).within_angle(v(0.0, 1.0, 0.0), quarter));
    assert!(!v(1.5, 1.0, 0.0).within_angle(v(0.0, 1.0, 0.0), quarter));
    assert!(!v(0.0, -1.0, 0.0).within_angle(v(0.0, 1.0, 0.0), Fixed::from_raw(HALF_PI_RAW)));
    assert!(v(0.0, -1.0, 0.0).within_angle(v(0.0, 1.0, 0.0), Fixed::from_raw(PI_RAW)));
    assert!(!Vec3::zero().within_angle(v(0.0, 1.0, 0.0), Fixed::from_raw(PI_RAW)));
    assert!(!v(0.0, 1.0, 0.0).within_angle(Vec3::zero(), Fixed::from_raw(PI_RAW)));
    assert!(!v(0.0, 1.0, 0.0).within_angle(v(0.0, 1.0, 0.0), Fixed::from_raw(-1)));
}

#[test]
fn rotations_take_the_first_vector_to_the_second() {
    let x = v(1.0, 0.0, 0.0);
    let y = v(0.0, 1.0, 0.0);
    assert!(near(x.rotated(x, y), y, 2));
    assert!(near(y.rotated(x, y), v(-1.0, 0.0, 0.0), 2));
    assert!(near(v(0.0, 0.0, 1.0).rotated(x, y), v(0.0, 0.0, 1.0), 2));
    let tilted = v(1.0, 2.0, -2.0).normalized();
    assert!(near(y.rotated(y, tilted), tilted, 10));
    assert_eq!(v(0.3, 0.4, 0.5).rotated(y, y), v(0.3, 0.4, 0.5));
    let turned = v(0.3, 1.0, 0.5).rotated(y, v(0.0, -1.0, 0.0));
    assert_eq!(turned.y, fx(-1.0));
    assert_eq!(turned.length(), v(0.3, 1.0, 0.5).length());
    assert_eq!(y.any_orthogonal().dot(y).raw, 0);
    assert_eq!(x.any_orthogonal().length().raw, ONE_RAW);
}

#[test]
fn no_coordinate_of_a_normalized_vector_lies_beyond_one() {
    let big = Fixed::from_raw(MAX_RAW);
    let samples = [
        v(1.0, 0.0, 0.0),
        v(-3.0, 4.0, 12.0),
        v(0.000000001, 0.0, 0.0),
        v(0.000000001, 0.000000001, -0.000000001),
        Vec3::new(big, big, big),
        Vec3::new(big.negated(), Fixed::zero(), Fixed::from_raw(1)),
    ];
    for sample in samples {
        let unit = sample.normalized();
        for coordinate in [unit.x, unit.y, unit.z] {
            assert!(coordinate.raw.abs() <= ONE_RAW);
        }
        for coordinate in [sample.x, sample.y, sample.z] {
            assert!(sample.length().raw >= coordinate.abs().raw);
        }
    }
    assert_eq!(v(-3.0, 4.0, 12.0).normalized().z.raw, 923_076_923);
}

#[test]
fn a_short_vector_is_normalized_as_well_as_a_long_one() {
    let one = 1_000_000_000i128;
    let samples = [
        Vec3::new(Fixed::from_raw(1), Fixed::from_raw(1), Fixed::from_raw(0)),
        Vec3::new(Fixed::from_raw(-1), Fixed::from_raw(2), Fixed::from_raw(-2)),
        Vec3::new(Fixed::from_raw(3), Fixed::from_raw(0), Fixed::from_raw(-4)),
        v(0.6, 0.8, 0.0),
        v(-123.0, 0.5, 77.0),
        Vec3::new(Fixed::from_raw(MAX_RAW), Fixed::from_raw(i64::MIN), Fixed::from_raw(MAX_RAW)),
        Vec3::new(Fixed::from_raw(i64::MIN), Fixed::zero(), Fixed::zero()),
    ];
    for sample in samples {
        let unit = sample.normalized();
        let squares = (unit.x.raw as i128).pow(2) + (unit.y.raw as i128).pow(2)
            + (unit.z.raw as i128).pow(2);
        assert!(one * one - 6 * one - 3 <= squares && squares <= one * one + 6 * one);
    }
    let diagonal = Vec3::new(Fixed::from_raw(1), Fixed::from_raw(1), Fixed::from_raw(0));
    assert_eq!(diagonal.normalized(), v(1.0, 1.0, 0.0).normalized());
    assert_eq!(diagonal.normalized().x.raw, 707_106_781);
    let slanted = Vec3::new(Fixed::from_raw(3), Fixed::from_raw(0), Fixed::from_raw(-4));
    assert_eq!(slanted.normalized(), v(0.6, 0.0, -0.8));
    assert_eq!(Vec3::new(Fixed::from_raw(i64::MIN), Fixed::zero(), Fixed::zero()).normalized(), v(-1.0, 0.0, 0.0));
}
