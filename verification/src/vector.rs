//! Three-dimensional vectors of fixed-point numbers.
use crate::fixed::{
    clamp, floor_div, isqrt, isqrt_wide, lemma_isqrt_exists, Fixed, MAX_RAW, MINUS_ONE_RAW,
    ONE_RAW,
};
use crate::math::{sin_cos, sin_cos_spec, PI_RAW};
use vstd::arithmetic::div_mod::{
    lemma_div_is_ordered, lemma_div_multiples_vanish, lemma_fundamental_div_mod, lemma_mod_bound,
};
use vstd::prelude::*;

verus! {

/// Cosines from which two unit vectors count as parallel (or, negated, as
/// opposite) when a rotation between them is built.
pub const PARALLEL_RAW: i64 = 999_999_000;

/// A point or a direction in space.
#[derive(Clone, Copy, Debug, PartialEq, Eq, Structural)]
pub struct Vec3 {
    pub x: Fixed,
    pub y: Fixed,
    pub z: Fixed,
}

/// The square of a raw coordinate.
pub open spec fn square(v: int) -> int {
    v * v
}

fn square_wide(v: i64) -> (r: u128)
    ensures
        r == square(v as int),
        r <= 0x4000_0000_0000_0000_0000_0000_0000_0000,
{
    assert(0 <= v * v <= 0x8000_0000_0000_0000 * 0x8000_0000_0000_0000) by (nonlinear_arith)
        requires
            -0x8000_0000_0000_0000 <= v < 0x8000_0000_0000_0000,
    ;
    if v < 0 {
        let m: u128 = (-(v as i128)) as u128;
        assert(m * m == v * v) by (nonlinear_arith)
            requires
                m == -v,
        ;
        m * m
    } else {
        (v as u128) * (v as u128)
    }
}

impl Vec3 {
    /// The vector with the coordinates `x`, `y` and `z`.
    pub open spec fn spec_new(x: Fixed, y: Fixed, z: Fixed) -> Vec3 {
        Vec3 { x, y, z }
    }

    /// The vector with the coordinates `x`, `y` and `z`.
    #[verifier::when_used_as_spec(spec_new)]
    pub fn new(x: Fixed, y: Fixed, z: Fixed) -> (r: Vec3)
        ensures
            r == Self::spec_new(x, y, z),
    {
        Vec3 { x, y, z }
    }

    /// The origin.
    pub open spec fn spec_zero() -> Vec3 {
        Vec3 { x: Fixed { raw: 0 }, y: Fixed { raw: 0 }, z: Fixed { raw: 0 } }
    }

    /// The origin.
    #[verifier::when_used_as_spec(spec_zero)]
    pub fn zero() -> (r: Vec3)
        ensures
            r == Self::spec_zero(),
    {
        Vec3 { x: Fixed { raw: 0 }, y: Fixed { raw: 0 }, z: Fixed { raw: 0 } }
    }

    /// The canonical up axis: `(0, 1, 0)`.
    pub open spec fn spec_up() -> Vec3 {
        Vec3 { x: Fixed { raw: 0 }, y: Fixed { raw: ONE_RAW }, z: Fixed { raw: 0 } }
    }

    /// The canonical up axis.
    #[verifier::when_used_as_spec(spec_up)]
    pub fn up() -> (r: Vec3)
        ensures
            r == Self::spec_up(),
    {
        Vec3 { x: Fixed { raw: 0 }, y: Fixed { raw: ONE_RAW }, z: Fixed { raw: 0 } }
    }

    /// The negated up axis: `(0, -1, 0)`.
    pub open spec fn spec_down() -> Vec3 {
        Vec3 { x: Fixed { raw: 0 }, y: Fixed { raw: MINUS_ONE_RAW }, z: Fixed { raw: 0 } }
    }

    /// The negated up axis.
    #[verifier::when_used_as_spec(spec_down)]
    pub fn down() -> (r: Vec3)
        ensures
            r == Self::spec_down(),
    {
        Vec3 { x: Fixed { raw: 0 }, y: Fixed { raw: MINUS_ONE_RAW }, z: Fixed { raw: 0 } }
    }

    /// The sum, coordinate by coordinate.
    pub open spec fn spec_plus(self, rhs: Vec3) -> Vec3 {
        Vec3 { x: self.x.plus(rhs.x), y: self.y.plus(rhs.y), z: self.z.plus(rhs.z) }
    }

    /// The sum, coordinate by coordinate.
    #[verifier::when_used_as_spec(spec_plus)]
    pub fn plus(self, rhs: Vec3) -> (r: Vec3)
        ensures
            r == self.spec_plus(rhs),
    {
        Vec3 { x: self.x.plus(rhs.x), y: self.y.plus(rhs.y), z: self.z.plus(rhs.z) }
    }

    /// The difference, coordinate by coordinate.
    pub open spec fn spec_minus(self, rhs: Vec3) -> Vec3 {
        Vec3 { x: self.x.minus(rhs.x), y: self.y.minus(rhs.y), z: self.z.minus(rhs.z) }
    }

    /// The difference, coordinate by coordinate.
    #[verifier::when_used_as_spec(spec_minus)]
    pub fn minus(self, rhs: Vec3) -> (r: Vec3)
        ensures
            r == self.spec_minus(rhs),
    {
        Vec3 { x: self.x.minus(rhs.x), y: self.y.minus(rhs.y), z: self.z.minus(rhs.z) }
    }

    /// Every coordinate times `factor`.
    pub open spec fn spec_scaled_by(self, factor: Fixed) -> Vec3 {
        Vec3 { x: self.x.times(factor), y: self.y.times(factor), z: self.z.times(factor) }
    }

    /// Every coordinate times `factor`.
    #[verifier::when_used_as_spec(spec_scaled_by)]
    pub fn scaled_by(self, factor: Fixed) -> (r: Vec3)
        ensures
            r == self.spec_scaled_by(factor),
    {
        Vec3 { x: self.x.times(factor), y: self.y.times(factor), z: self.z.times(factor) }
    }

    /// The scalar product: the sum of the products of the coordinates.
    pub open spec fn spec_dot(self, rhs: Vec3) -> Fixed {
        self.x.times(rhs.x).plus(self.y.times(rhs.y)).plus(self.z.times(rhs.z))
    }

    /// The scalar product.
    #[verifier::when_used_as_spec(spec_dot)]
    pub fn dot(self, rhs: Vec3) -> (r: Fixed)
        ensures
            r == self.spec_dot(rhs),
    {
        self.x.times(rhs.x).plus(self.y.times(rhs.y)).plus(self.z.times(rhs.z))
    }

    /// The vector product.
    pub open spec fn spec_cross(self, rhs: Vec3) -> Vec3 {
        Vec3 {
            x: self.y.times(rhs.z).minus(self.z.times(rhs.y)),
            y: self.z.times(rhs.x).minus(self.x.times(rhs.z)),
            z: self.x.times(rhs.y).minus(self.y.times(rhs.x)),
        }
    }

    /// The vector product.
    #[verifier::when_used_as_spec(spec_cross)]
    pub fn cross(self, rhs: Vec3) -> (r: Vec3)
        ensures
            r == self.spec_cross(rhs),
    {
        Vec3 {
            x: self.y.times(rhs.z).minus(self.z.times(rhs.y)),
            y: self.z.times(rhs.x).minus(self.x.times(rhs.z)),
            z: self.x.times(rhs.y).minus(self.y.times(rhs.x)),
        }
    }

    /// The squared Euclidean norm in squared raw units, exactly.
    pub open spec fn squared_norm(self) -> int {
        square(self.x.raw as int) + square(self.y.raw as int) + square(self.z.raw as int)
    }

    /// The squared Euclidean norm in squared raw units, exactly.
    pub fn squared_norm_wide(self) -> (r: u128)
        ensures
            r == self.squared_norm(),
    {
        square_wide(self.x.raw) + square_wide(self.y.raw) + square_wide(self.z.raw)
    }

    /// The Euclidean norm: the integer square root of the squared norm,
    /// saturated.
    pub open spec fn spec_length(self) -> Fixed {
        Fixed { raw: clamp(isqrt(self.squared_norm())) as i64 }
    }

    /// The Euclidean norm, rounded down and saturated.
    #[verifier::when_used_as_spec(spec_length)]
    pub fn length(self) -> (r: Fixed)
        ensures
            r == self.spec_length(),
            r.raw >= 0,
    {
        let root: u64 = isqrt_wide(self.squared_norm_wide());
        if root > MAX_RAW as u64 {
            Fixed { raw: MAX_RAW }
        } else {
            Fixed { raw: root as i64 }
        }
    }

    /// The length of the difference.
    pub open spec fn spec_distance(self, other: Vec3) -> Fixed {
        self.minus(other).length()
    }

    /// The length of the difference.
    #[verifier::when_used_as_spec(spec_distance)]
    pub fn distance(self, other: Vec3) -> (r: Fixed)
        ensures
            r == self.spec_distance(other),
            r.raw >= 0,
    {
        self.minus(other).length()
    }

    /// Whether `self` and `other` are at most `radius` apart. The comparison
    /// is made on the exact squares, without rounding.
    pub open spec fn spec_within_distance(self, other: Vec3, radius: Fixed) -> bool {
        radius.raw >= 0 && self.minus(other).squared_norm() <= square(radius.raw as int)
    }

    /// Whether `self` and `other` are at most `radius` apart.
    #[verifier::when_used_as_spec(spec_within_distance)]
    pub fn within_distance(self, other: Vec3, radius: Fixed) -> (r: bool)
        ensures
            r == self.spec_within_distance(other, radius),
    {
        radius.raw >= 0 && self.minus(other).squared_norm_wide() <= square_wide(radius.raw)
    }

    /// The vector of length one along `self`; the up axis where `self` has
    /// no length. The coordinates are first doubled until the largest of them
    /// is a large number, so that a short vector is normalized as well as a
    /// long one; each is then divided by the integer square root of the sum
    /// of their squares.
    pub open spec fn spec_normalized(self) -> Vec3 {
        let big = enlarged(self.x.raw as int, self.y.raw as int, self.z.raw as int);
        let len = isqrt(square(big.0) + square(big.1) + square(big.2));
        if reach(self.x.raw as int, self.y.raw as int, self.z.raw as int) == 0 {
            Vec3::up()
        } else {
            Vec3 {
                x: Fixed { raw: ((big.0 * ONE_RAW) / len) as i64 },
                y: Fixed { raw: ((big.1 * ONE_RAW) / len) as i64 },
                z: Fixed { raw: ((big.2 * ONE_RAW) / len) as i64 },
            }
        }
    }

    /// The unit vector along `self`; the up axis where `self` has no length.
    /// The result has length one up to rounding, however short or long
    /// `self` is.
    #[verifier::when_used_as_spec(spec_normalized)]
    pub fn normalized(self) -> (r: Vec3)
        ensures
            r == self.spec_normalized(),
            unit_bounded(r),
            unit_length(r),
    {
        proof {
            lemma_normalized_length(self);
        }
        let mut x: i128 = self.x.raw as i128;
        let mut y: i128 = self.y.raw as i128;
        let mut z: i128 = self.z.raw as i128;
        if x == 0 && y == 0 && z == 0 {
            return Vec3::up();
        }
        while size_of(x, y, z) < NORMAL_SIZE as i128
            invariant
                0 < reach(x as int, y as int, z as int) <= 0x8000_0000_0000_0000,
                enlarged(x as int, y as int, z as int) == enlarged(
                    self.x.raw as int,
                    self.y.raw as int,
                    self.z.raw as int,
                ),
            decreases shortfall(x as int, y as int, z as int),
        {
            proof {
                lemma_reach_doubles(x as int, y as int, z as int);
            }
            x = 2 * x;
            y = 2 * y;
            z = 2 * z;
        }
        proof {
            lemma_enlarged(self.x.raw as int, self.y.raw as int, self.z.raw as int);
            lemma_squares_fit(x as int);
            lemma_squares_fit(y as int);
            lemma_squares_fit(z as int);
        }
        let sum: u128 = wide_square(x) + wide_square(y) + wide_square(z);
        let len: i128 = isqrt_wide(sum) as i128;
        proof {
            lemma_reach_square(x as int, y as int, z as int);
            lemma_root_dominates(reach(x as int, y as int, z as int), sum as int);
            lemma_ratio_bounded(x as int, len as int);
            lemma_ratio_bounded(y as int, len as int);
            lemma_ratio_bounded(z as int, len as int);
        }
        assert(-0x8000_0000_0000_0000 * 1_000_000_000 <= x * ONE_RAW <= 0x8000_0000_0000_0000
            * 1_000_000_000 && -0x8000_0000_0000_0000 * 1_000_000_000 <= y * ONE_RAW
            <= 0x8000_0000_0000_0000 * 1_000_000_000 && -0x8000_0000_0000_0000 * 1_000_000_000 <= z
            * ONE_RAW <= 0x8000_0000_0000_0000 * 1_000_000_000) by (nonlinear_arith)
            requires
                -0x8000_0000_0000_0000 <= x <= 0x8000_0000_0000_0000,
                -0x8000_0000_0000_0000 <= y <= 0x8000_0000_0000_0000,
                -0x8000_0000_0000_0000 <= z <= 0x8000_0000_0000_0000,
                ONE_RAW == 1_000_000_000,
        ;
        Vec3 {
            x: Fixed { raw: floor_div(x * (ONE_RAW as i128), len) as i64 },
            y: Fixed { raw: floor_div(y * (ONE_RAW as i128), len) as i64 },
            z: Fixed { raw: floor_div(z * (ONE_RAW as i128), len) as i64 },
        }
    }

    /// Whether the angle between `self` and `axis` is at most `angle`
    /// radians. A vector without length is at no angle to anything. Angles
    /// below half a turn are compared by their cosines.
    pub open spec fn spec_within_angle(self, axis: Vec3, angle: Fixed) -> bool {
        let own = self.length();
        let other = axis.length();
        if own.raw == 0 || other.raw == 0 || angle.raw < 0 {
            false
        } else if angle.raw >= PI_RAW {
            true
        } else {
            self.dot(axis).raw >= sin_cos_spec(angle).1.times(own).times(other).raw
        }
    }

    /// Whether the angle between `self` and `axis` is at most `angle` radians.
    #[verifier::when_used_as_spec(spec_within_angle)]
    pub fn within_angle(self, axis: Vec3, angle: Fixed) -> (r: bool)
        ensures
            r == self.spec_within_angle(axis, angle),
    {
        let own = self.length();
        let other = axis.length();
        if own.raw == 0 || other.raw == 0 || angle.raw < 0 {
            false
        } else if angle.raw >= PI_RAW {
            true
        } else {
            let (_, cosine) = sin_cos(angle);
            self.dot(axis).raw >= cosine.times(own).times(other).raw
        }
    }

    /// A unit vector at a right angle to `self`: `(-z, 0, x)` where `x`
    /// outweighs `y`, else `(0, z, -y)`, with length one.
    pub open spec fn spec_any_orthogonal(self) -> Vec3 {
        if self.x.abs().raw > self.y.abs().raw {
            Vec3 { x: self.z.negated(), y: Fixed { raw: 0 }, z: self.x }.normalized()
        } else {
            Vec3 { x: Fixed { raw: 0 }, y: self.z, z: self.y.negated() }.normalized()
        }
    }

    /// A unit vector at a right angle to `self`.
    #[verifier::when_used_as_spec(spec_any_orthogonal)]
    pub fn any_orthogonal(self) -> (r: Vec3)
        ensures
            r == self.spec_any_orthogonal(),
    {
        if self.x.abs().raw > self.y.abs().raw {
            Vec3 { x: self.z.negated(), y: Fixed { raw: 0 }, z: self.x }.normalized()
        } else {
            Vec3 { x: Fixed { raw: 0 }, y: self.z, z: self.y.negated() }.normalized()
        }
    }

    /// `self` turned by the shortest rotation that takes the unit vector
    /// `from` to the unit vector `to`: with `c = from . to` and
    /// `a = from x to`, the result is `c self + a x self + a (a . self) / (1 + c)`.
    /// Parallel vectors leave `self` as it is; opposite ones turn it by half a
    /// turn about an axis at a right angle to `from`.
    pub open spec fn spec_rotated(self, from: Vec3, to: Vec3) -> Vec3 {
        let c = from.dot(to);
        if c.raw >= PARALLEL_RAW {
            self
        } else if c.raw <= -PARALLEL_RAW {
            let k = from.any_orthogonal();
            let along = k.scaled_by(k.dot(self));
            along.plus(along).minus(self)
        } else {
            let a = from.cross(to);
            let one = Fixed { raw: ONE_RAW };
            self.scaled_by(c).plus(a.cross(self)).plus(
                a.scaled_by(a.dot(self).over(one.plus(c))),
            )
        }
    }

    /// `self` turned by the shortest rotation that takes `from` to `to`.
    #[verifier::when_used_as_spec(spec_rotated)]
    pub fn rotated(self, from: Vec3, to: Vec3) -> (r: Vec3)
        ensures
            r == self.spec_rotated(from, to),
    {
        let c = from.dot(to);
        if c.raw >= PARALLEL_RAW {
            self
        } else if c.raw <= -PARALLEL_RAW {
            let k = from.any_orthogonal();
            let along = k.scaled_by(k.dot(self));
            along.plus(along).minus(self)
        } else {
            let a = from.cross(to);
            let one = Fixed { raw: ONE_RAW };
            self.scaled_by(c).plus(a.cross(self)).plus(a.scaled_by(a.dot(self).over(one.plus(c))))
        }
    }
}

/// The size from which the largest coordinate of a vector is large enough
/// for the vector to be normalized as it stands.
pub const NORMAL_SIZE: i64 = 0x2000_0000_0000_0000;

/// The size of `c`.
pub open spec fn size(c: int) -> int {
    if c < 0 {
        -c
    } else {
        c
    }
}

/// The largest size of the three coordinates.
pub open spec fn reach(x: int, y: int, z: int) -> int {
    let first = if size(x) < size(y) {
        size(y)
    } else {
        size(x)
    };
    if first < size(z) {
        size(z)
    } else {
        first
    }
}

/// How far the largest size is below the normal size; nothing where it is
/// not below it.
pub open spec fn shortfall(x: int, y: int, z: int) -> int {
    if reach(x, y, z) < NORMAL_SIZE {
        NORMAL_SIZE - reach(x, y, z)
    } else {
        0
    }
}

/// The three coordinates doubled until the largest of them has at least the
/// normal size. A vector without length stays as it is.
pub open spec fn enlarged(x: int, y: int, z: int) -> (int, int, int)
    decreases shortfall(x, y, z),
    via enlarged_ends
{
    if 0 < reach(x, y, z) < NORMAL_SIZE {
        enlarged(2 * x, 2 * y, 2 * z)
    } else {
        (x, y, z)
    }
}

#[via_fn]
proof fn enlarged_ends(x: int, y: int, z: int) {
    lemma_reach_doubles(x, y, z);
}

/// Doubling the coordinates doubles the largest size.
pub proof fn lemma_reach_doubles(x: int, y: int, z: int)
    ensures
        reach(2 * x, 2 * y, 2 * z) == 2 * reach(x, y, z),
{
    assert(size(2 * x) == 2 * size(x));
    assert(size(2 * y) == 2 * size(y));
    assert(size(2 * z) == 2 * size(z));
}

/// The square of the largest size is at most the sum of the squares.
pub proof fn lemma_reach_square(x: int, y: int, z: int)
    ensures
        square(reach(x, y, z)) <= square(x) + square(y) + square(z),
{
    assert(square(x) >= 0 && square(y) >= 0 && square(z) >= 0) by (nonlinear_arith);
    assert(square(-x) == square(x) && square(-y) == square(y) && square(-z) == square(z))
        by (nonlinear_arith);
}

/// No coordinate of `v` lies beyond one.
pub open spec fn unit_bounded(v: Vec3) -> bool {
    &&& -ONE_RAW <= v.x.raw <= ONE_RAW
    &&& -ONE_RAW <= v.y.raw <= ONE_RAW
    &&& -ONE_RAW <= v.z.raw <= ONE_RAW
}

/// `v` has length one up to rounding: its squared norm differs from one by
/// less than seven billionths.
pub open spec fn unit_length(v: Vec3) -> bool {
    ONE_RAW * ONE_RAW - 6 * ONE_RAW - 3 <= v.squared_norm() <= ONE_RAW * ONE_RAW + 6 * ONE_RAW
}

fn size_of(x: i128, y: i128, z: i128) -> (r: i128)
    requires
        -0x8000_0000_0000_0000 <= x <= 0x8000_0000_0000_0000,
        -0x8000_0000_0000_0000 <= y <= 0x8000_0000_0000_0000,
        -0x8000_0000_0000_0000 <= z <= 0x8000_0000_0000_0000,
    ensures
        r == reach(x as int, y as int, z as int),
{
    let a = if x < 0 { -x } else { x };
    let b = if y < 0 { -y } else { y };
    let c = if z < 0 { -z } else { z };
    let first = if a < b { b } else { a };
    if first < c { c } else { first }
}

fn wide_square(v: i128) -> (r: u128)
    requires
        -0x8000_0000_0000_0000 <= v <= 0x8000_0000_0000_0000,
    ensures
        r == square(v as int),
        r <= 0x4000_0000_0000_0000_0000_0000_0000_0000,
{
    proof {
        lemma_squares_fit(v as int);
    }
    let m: u128 = if v < 0 { (-v) as u128 } else { v as u128 };
    assert(m * m == v * v) by (nonlinear_arith)
        requires
            m == v || m == -v,
    ;
    m * m
}

/// The square of a coordinate fits in 126 bits.
pub proof fn lemma_squares_fit(v: int)
    requires
        -0x8000_0000_0000_0000 <= v <= 0x8000_0000_0000_0000,
    ensures
        0 <= square(v) <= 0x4000_0000_0000_0000_0000_0000_0000_0000,
{
    assert(0 <= v * v <= 0x8000_0000_0000_0000 * 0x8000_0000_0000_0000) by (nonlinear_arith)
        requires
            -0x8000_0000_0000_0000 <= v <= 0x8000_0000_0000_0000,
    ;
}

/// An enlarged vector that has a length has its largest coordinate between
/// the normal size and 2^63.
pub proof fn lemma_enlarged(x: int, y: int, z: int)
    requires
        0 < reach(x, y, z) <= 0x8000_0000_0000_0000,
    ensures
        ({
            let big = enlarged(x, y, z);
            NORMAL_SIZE <= reach(big.0, big.1, big.2) <= 0x8000_0000_0000_0000
        }),
    decreases shortfall(x, y, z),
{
    if reach(x, y, z) < NORMAL_SIZE {
        lemma_reach_doubles(x, y, z);
        lemma_enlarged(2 * x, 2 * y, 2 * z);
    }
}

/// The integer square root of a number that is at least `c^2` is at least
/// `c`.
pub proof fn lemma_root_dominates(c: int, n: int)
    requires
        0 <= c,
        square(c) <= n,
    ensures
        c <= isqrt(n),
{
    assert(square(c) >= 0) by (nonlinear_arith);
    lemma_isqrt_exists(n);
    let r = isqrt(n);
    if r < c {
        assert((r + 1) * (r + 1) <= c * c) by (nonlinear_arith)
            requires
                0 <= r,
                r + 1 <= c,
        ;
    }
}

/// A coordinate over a length that is at least its size lies between minus
/// one and one.
pub proof fn lemma_ratio_bounded(c: int, len: int)
    requires
        0 < len,
        -len <= c <= len,
    ensures
        -ONE_RAW <= (c * ONE_RAW) / len <= ONE_RAW,
{
    assert(len * (-(ONE_RAW as int)) <= c * ONE_RAW <= len * (ONE_RAW as int)) by (nonlinear_arith)
        requires
            -len <= c <= len,
            ONE_RAW == 1_000_000_000,
    ;
    lemma_div_multiples_vanish(ONE_RAW as int, len);
    lemma_div_multiples_vanish(-(ONE_RAW as int), len);
    lemma_div_is_ordered(len * (-(ONE_RAW as int)), c * ONE_RAW, len);
    lemma_div_is_ordered(c * ONE_RAW, len * (ONE_RAW as int), len);
}

/// One coordinate of a normalized vector: where `c * ONE_RAW` is
/// `len * r + e` with a rest `e` under `len`, the square of `c * ONE_RAW` is
/// `len^2 r^2` up to `2 len |r| e + e^2`.
proof fn lemma_coordinate(c: int, len: int, r: int, e: int)
    requires
        0 < len,
        c * ONE_RAW == len * r + e,
        0 <= e < len,
        -ONE_RAW <= r <= ONE_RAW,
    ensures
        (ONE_RAW * ONE_RAW) * square(c) <= (len * len) * square(r) + 2 * ONE_RAW * (len * len) + (
        len * len),
        (ONE_RAW * ONE_RAW) * square(c) >= (len * len) * square(r) - 2 * ONE_RAW * (len * len),
{
    let t = c * ONE_RAW;
    assert(t * t == (ONE_RAW * ONE_RAW) * square(c)) by (nonlinear_arith)
        requires
            t == c * ONE_RAW,
    ;
    assert(t * t == (len * len) * square(r) + 2 * len * (r * e) + e * e) by (nonlinear_arith)
        requires
            t == len * r + e,
    ;
    assert(-(ONE_RAW * len) <= r * e <= ONE_RAW * len) by (nonlinear_arith)
        requires
            -ONE_RAW <= r <= ONE_RAW,
            0 <= e < len,
    ;
    assert(0 <= e * e <= len * len) by (nonlinear_arith)
        requires
            0 <= e < len,
    ;
    let cross = r * e;
    assert(2 * len * cross <= 2 * ONE_RAW * (len * len)) by (nonlinear_arith)
        requires
            cross <= ONE_RAW * len,
            0 < len,
    ;
    assert(2 * len * cross >= -(2 * ONE_RAW * (len * len))) by (nonlinear_arith)
        requires
            cross >= -(ONE_RAW * len),
            0 < len,
    ;
}

/// Three coordinates divided by the rounded root of the sum of their
/// squares, a root of at least the normal size, make a vector whose squared
/// norm differs from one by less than seven billionths.
proof fn lemma_unit(x: int, y: int, z: int, len: int)
    requires
        len >= NORMAL_SIZE,
        len * len <= square(x) + square(y) + square(z) < (len + 1) * (len + 1),
        -len <= x <= len,
        -len <= y <= len,
        -len <= z <= len,
    ensures
        ({
            let s = square((x * ONE_RAW) / len) + square((y * ONE_RAW) / len) + square(
                (z * ONE_RAW) / len,
            );
            ONE_RAW * ONE_RAW - 6 * ONE_RAW - 3 <= s <= ONE_RAW * ONE_RAW + 6 * ONE_RAW
        }),
{
    let one = ONE_RAW as int;
    let rx = (x * one) / len;
    let ry = (y * one) / len;
    let rz = (z * one) / len;
    lemma_ratio_bounded(x, len);
    lemma_ratio_bounded(y, len);
    lemma_ratio_bounded(z, len);
    lemma_fundamental_div_mod(x * one, len);
    lemma_fundamental_div_mod(y * one, len);
    lemma_fundamental_div_mod(z * one, len);
    lemma_mod_bound(x * one, len);
    lemma_mod_bound(y * one, len);
    lemma_mod_bound(z * one, len);
    lemma_coordinate(x, len, rx, (x * one) % len);
    lemma_coordinate(y, len, ry, (y * one) % len);
    lemma_coordinate(z, len, rz, (z * one) % len);
    let n = square(x) + square(y) + square(z);
    let s = square(rx) + square(ry) + square(rz);
    let l2 = len * len;
    let o2 = one * one;
    assert(o2 * n == o2 * square(x) + o2 * square(y) + o2 * square(z)) by (nonlinear_arith)
        requires
            n == square(x) + square(y) + square(z),
    ;
    assert(l2 * s == l2 * square(rx) + l2 * square(ry) + l2 * square(rz)) by (nonlinear_arith)
        requires
            s == square(rx) + square(ry) + square(rz),
    ;
    assert(o2 * l2 <= o2 * n) by (nonlinear_arith)
        requires
            l2 <= n,
            o2 >= 0,
    ;
    assert((len + 1) * (len + 1) == l2 + 2 * len + 1) by (nonlinear_arith)
        requires
            l2 == len * len,
    ;
    assert(o2 * n <= o2 * (l2 + 2 * len)) by (nonlinear_arith)
        requires
            n <= l2 + 2 * len,
            o2 >= 0,
    ;
    assert(o2 * (l2 + 2 * len) == o2 * l2 + (2 * o2) * len) by (nonlinear_arith);
    assert((2 * o2) * len <= l2 - len) by (nonlinear_arith)
        requires
            2 * o2 + 1 <= len,
            l2 == len * len,
            len > 0,
    ;
    assert(l2 * s < l2 * (o2 + 6 * one + 1)) by (nonlinear_arith)
        requires
            l2 * s < o2 * l2 + l2 + 6 * one * l2,
    ;
    assert(l2 * s >= l2 * (o2 - 6 * one - 3)) by (nonlinear_arith)
        requires
            l2 * s >= o2 * l2 - 6 * one * l2 - 3 * l2,
    ;
    assert(s < o2 + 6 * one + 1) by (nonlinear_arith)
        requires
            l2 * s < l2 * (o2 + 6 * one + 1),
            l2 > 0,
    ;
    assert(s >= o2 - 6 * one - 3) by (nonlinear_arith)
        requires
            l2 * s >= l2 * (o2 - 6 * one - 3),
            l2 > 0,
    ;
}

/// A normalized vector has length one up to rounding, and none of its
/// coordinates lies beyond one, whatever the length of the vector it was
/// made of.
pub proof fn lemma_normalized_length(v: Vec3)
    ensures
        unit_bounded(v.normalized()),
        unit_length(v.normalized()),
{
    let x = v.x.raw as int;
    let y = v.y.raw as int;
    let z = v.z.raw as int;
    if reach(x, y, z) == 0 {
        assert(square(0) == 0 && square(ONE_RAW as int) == ONE_RAW * ONE_RAW) by (nonlinear_arith);
    } else {
        lemma_enlarged(x, y, z);
        let big = enlarged(x, y, z);
        lemma_squares_fit(big.0);
        lemma_squares_fit(big.1);
        lemma_squares_fit(big.2);
        let n = square(big.0) + square(big.1) + square(big.2);
        let len = isqrt(n);
        lemma_isqrt_exists(n);
        lemma_reach_square(big.0, big.1, big.2);
        lemma_root_dominates(reach(big.0, big.1, big.2), n);
        lemma_unit(big.0, big.1, big.2, len);
        lemma_ratio_bounded(big.0, len);
        lemma_ratio_bounded(big.1, len);
        lemma_ratio_bounded(big.2, len);
    }
}

/// One coordinate of a scaled unit vector: the square of `n * r / ONE_RAW`,
/// rounded down, against the square of `n * r`.
proof fn lemma_scaled_coordinate(n: int, r: int)
    requires
        -ONE_RAW <= n <= ONE_RAW,
        0 <= r <= MAX_RAW,
    ensures
        clamp((n * r) / (ONE_RAW as int)) == (n * r) / (ONE_RAW as int),
        (ONE_RAW * ONE_RAW) * square((n * r) / (ONE_RAW as int)) <= square(n) * square(r) + 2 * r
            * (ONE_RAW * ONE_RAW) + ONE_RAW * ONE_RAW,
        (ONE_RAW * ONE_RAW) * square((n * r) / (ONE_RAW as int)) >= square(n) * square(r) - 2 * r
            * (ONE_RAW * ONE_RAW),
{
    let one = ONE_RAW as int;
    let p = n * r;
    let c = p / one;
    let e = p % one;
    lemma_fundamental_div_mod(p, one);
    lemma_mod_bound(p, one);
    assert(-(one * r) <= p <= one * r) by (nonlinear_arith)
        requires
            p == n * r,
            -one <= n <= one,
            0 <= r,
    ;
    assert(-r <= c <= r) by (nonlinear_arith)
        requires
            p == one * c + e,
            0 <= e < one,
            -(one * r) <= p <= one * r,
            one > 0,
    ;
    let t = one * c;
    assert(t * t == (one * one) * square(c)) by (nonlinear_arith)
        requires
            t == one * c,
    ;
    assert(t * t == p * p - 2 * (p * e) + e * e) by (nonlinear_arith)
        requires
            t == p - e,
    ;
    assert(p * p == square(n) * square(r)) by (nonlinear_arith)
        requires
            p == n * r,
    ;
    assert(-(r * (one * one)) <= p * e <= r * (one * one)) by (nonlinear_arith)
        requires
            -(one * r) <= p <= one * r,
            0 <= e < one,
            0 <= r,
    ;
    assert(0 <= e * e <= one * one) by (nonlinear_arith)
        requires
            0 <= e < one,
    ;
}

/// A unit vector scaled by `r` has the length `r` up to rounding: in raw
/// units, the square of its length differs from the square of `r` by no
/// more than seven billionths of that square and `6 r + 3`.
pub proof fn lemma_scaled_length(v: Vec3, r: Fixed)
    requires
        unit_bounded(v),
        unit_length(v),
        0 <= r.raw,
    ensures
        ONE_RAW * (v.scaled_by(r).squared_norm() - square(r.raw as int)) <= 7 * square(
            r.raw as int,
        ) + ONE_RAW * (6 * r.raw + 3),
        ONE_RAW * (square(r.raw as int) - v.scaled_by(r).squared_norm()) <= 7 * square(
            r.raw as int,
        ) + ONE_RAW * (6 * r.raw),
{
    let one = ONE_RAW as int;
    let o2 = one * one;
    let w = r.raw as int;
    let w2 = square(w);
    lemma_scaled_coordinate(v.x.raw as int, w);
    lemma_scaled_coordinate(v.y.raw as int, w);
    lemma_scaled_coordinate(v.z.raw as int, w);
    let s = v.squared_norm();
    let got = v.scaled_by(r).squared_norm();
    assert(got == square((v.x.raw * w) / one) + square((v.y.raw * w) / one) + square(
        (v.z.raw * w) / one,
    ));
    assert(o2 * got <= s * w2 + 6 * w * o2 + 3 * o2 && o2 * got >= s * w2 - 6 * w * o2)
        by (nonlinear_arith)
        requires
            got == square((v.x.raw * w) / one) + square((v.y.raw * w) / one) + square(
                (v.z.raw * w) / one,
            ),
            s == square(v.x.raw as int) + square(v.y.raw as int) + square(v.z.raw as int),
            o2 * square((v.x.raw * w) / one) <= square(v.x.raw as int) * w2 + 2 * w * o2 + o2,
            o2 * square((v.y.raw * w) / one) <= square(v.y.raw as int) * w2 + 2 * w * o2 + o2,
            o2 * square((v.z.raw * w) / one) <= square(v.z.raw as int) * w2 + 2 * w * o2 + o2,
            o2 * square((v.x.raw * w) / one) >= square(v.x.raw as int) * w2 - 2 * w * o2,
            o2 * square((v.y.raw * w) / one) >= square(v.y.raw as int) * w2 - 2 * w * o2,
            o2 * square((v.z.raw * w) / one) >= square(v.z.raw as int) * w2 - 2 * w * o2,
    ;
    assert(w2 >= 0) by (nonlinear_arith)
        requires
            w2 == w * w,
    ;
    assert(s * w2 <= (o2 + 6 * one) * w2 && s * w2 >= (o2 - 6 * one - 3) * w2) by (nonlinear_arith)
        requires
            o2 - 6 * one - 3 <= s <= o2 + 6 * one,
            w2 >= 0,
    ;
    assert(one * (one * (got - w2)) <= one * (7 * w2 + one * (6 * w + 3))) by (nonlinear_arith)
        requires
            o2 == one * one,
            o2 * got <= s * w2 + 6 * w * o2 + 3 * o2,
            s * w2 <= (o2 + 6 * one) * w2,
            w2 >= 0,
            one > 0,
    ;
    assert(one * (one * (w2 - got)) <= one * (7 * w2 + one * (6 * w))) by (nonlinear_arith)
        requires
            o2 == one * one,
            o2 * got >= s * w2 - 6 * w * o2,
            s * w2 >= (o2 - 6 * one - 3) * w2,
            w2 >= 0,
            one >= 3,
    ;
    assert(one * (got - w2) <= 7 * w2 + one * (6 * w + 3)) by (nonlinear_arith)
        requires
            one * (one * (got - w2)) <= one * (7 * w2 + one * (6 * w + 3)),
            one > 0,
    ;
    assert(one * (w2 - got) <= 7 * w2 + one * (6 * w)) by (nonlinear_arith)
        requires
            one * (one * (w2 - got)) <= one * (7 * w2 + one * (6 * w)),
            one > 0,
    ;
}

} // verus!
