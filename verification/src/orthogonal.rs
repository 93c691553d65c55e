//! Angles in fixed point. A vector is cleared of its part along an axis,
//! and what is left stands at a right angle to the axis; a vector leans
//! from an axis by a cosine and the sine that goes with it, and stands at
//! the angle of that cosine to the axis. Both hold up to rounding errors
//! that are stated and proved here.
use crate::fixed::{isqrt, isqrt_wide, lemma_isqrt_exists, Fixed, ONE_RAW};
use crate::vector::{
    enlarged, lemma_enlarged, lemma_normalized_length, lemma_ratio_bounded, lemma_reach_doubles,
    lemma_reach_square, lemma_root_dominates, reach, shortfall, square, unit_bounded, unit_length,
    Vec3, NORMAL_SIZE,
};
use vstd::arithmetic::div_mod::{lemma_fundamental_div_mod, lemma_mod_bound};
use vstd::prelude::*;

verus! {

/// The scalar product in squared raw units, exactly.
pub open spec fn exact_dot(a: Vec3, b: Vec3) -> int {
    a.x.raw * b.x.raw + a.y.raw * b.y.raw + a.z.raw * b.z.raw
}

/// By how many billionths the cosine of a right angle may miss zero.
pub const RIGHT_ANGLE_SLACK: i64 = 60;

/// `a` and `b`, two vectors of length one, stand at a right angle up to
/// rounding: their scalar product, the cosine of the angle between them, is
/// within sixty billionths of zero.
pub open spec fn at_right_angle(a: Vec3, b: Vec3) -> bool {
    -RIGHT_ANGLE_SLACK * ONE_RAW <= exact_dot(a, b) <= RIGHT_ANGLE_SLACK * ONE_RAW
}

/// By how much a vector is multiplied when it is enlarged: by two for every
/// doubling.
pub open spec fn stretch(x: int, y: int, z: int) -> int
    decreases shortfall(x, y, z),
    via stretch_ends
{
    if 0 < reach(x, y, z) < NORMAL_SIZE {
        2 * stretch(2 * x, 2 * y, 2 * z)
    } else {
        1
    }
}

#[via_fn]
proof fn stretch_ends(x: int, y: int, z: int) {
    lemma_reach_doubles(x, y, z);
}

/// An enlarged vector is the vector times its stretch, in every coordinate.
pub proof fn lemma_stretch(x: int, y: int, z: int)
    ensures
        stretch(x, y, z) >= 1,
        enlarged(x, y, z) == (stretch(x, y, z) * x, stretch(x, y, z) * y, stretch(x, y, z) * z),
    decreases shortfall(x, y, z),
{
    if 0 < reach(x, y, z) < NORMAL_SIZE {
        lemma_reach_doubles(x, y, z);
        lemma_stretch(2 * x, 2 * y, 2 * z);
        let m = stretch(2 * x, 2 * y, 2 * z);
        assert(m * (2 * x) == (2 * m) * x && m * (2 * y) == (2 * m) * y && m * (2 * z) == (2 * m)
            * z) by (nonlinear_arith);
    } else {
        assert(1 * x == x && 1 * y == y && 1 * z == z);
    }
}

/// One coordinate of a normalized vector times a coordinate of another:
/// with `c * ONE_RAW == len * r + f`, the product `len * r * d` is
/// `c * ONE_RAW * d` up to `len * ONE_RAW`.
proof fn lemma_product_rest(c: int, len: int, r: int, f: int, d: int)
    requires
        c * ONE_RAW == len * r + f,
        0 <= f < len,
        -ONE_RAW <= d <= ONE_RAW,
    ensures
        len * (r * d) <= ONE_RAW * (c * d) + len * ONE_RAW,
        len * (r * d) >= ONE_RAW * (c * d) - len * ONE_RAW,
{
    assert(len * (r * d) == ONE_RAW * (c * d) - f * d) by (nonlinear_arith)
        requires
            c * ONE_RAW == len * r + f,
    ;
    assert(-(len * ONE_RAW) <= f * d <= len * ONE_RAW) by (nonlinear_arith)
        requires
            0 <= f < len,
            -ONE_RAW <= d <= ONE_RAW,
    ;
}

/// `(m * c) * d` is `m * (c * d)`.
proof fn lemma_multiple_product(m: int, c: int, d: int)
    ensures
        (m * c) * d == m * (c * d),
{
    assert((m * c) * d == m * (c * d)) by (nonlinear_arith);
}

/// Normalizing keeps a right angle: where the scalar product of `v` with a
/// vector `d` whose coordinates lie within one is at most `bound` in size,
/// and `v` is at least half a unit long, the scalar product of the
/// normalized `v` with `d` is at most `2 * bound + 3 * ONE_RAW + 1` in size.
/// With the bound zero, `v` may have any length but none.
pub proof fn lemma_normalized_dot(v: Vec3, d: Vec3, bound: int)
    requires
        unit_bounded(d),
        0 < reach(v.x.raw as int, v.y.raw as int, v.z.raw as int),
        0 <= bound <= NORMAL_SIZE,
        -bound <= exact_dot(v, d) <= bound,
        bound > 0 ==> 4 * v.squared_norm() >= ONE_RAW * ONE_RAW,
    ensures
        -(2 * bound + 3 * ONE_RAW + 1) <= exact_dot(v.normalized(), d) <= 2 * bound + 3 * ONE_RAW
            + 1,
{
    let one = ONE_RAW as int;
    let x = v.x.raw as int;
    let y = v.y.raw as int;
    let z = v.z.raw as int;
    let m = stretch(x, y, z);
    lemma_stretch(x, y, z);
    lemma_enlarged(x, y, z);
    let big = enlarged(x, y, z);
    let n = square(big.0) + square(big.1) + square(big.2);
    let len = isqrt(n);
    lemma_reach_square(big.0, big.1, big.2);
    assert(square(reach(big.0, big.1, big.2)) >= 0) by (nonlinear_arith);
    lemma_isqrt_exists(n);
    lemma_root_dominates(reach(big.0, big.1, big.2), n);
    lemma_ratio_bounded(big.0, len);
    lemma_ratio_bounded(big.1, len);
    lemma_ratio_bounded(big.2, len);
    let rx = (big.0 * one) / len;
    let ry = (big.1 * one) / len;
    let rz = (big.2 * one) / len;
    let unit = v.normalized();
    assert(unit.x.raw == rx && unit.y.raw == ry && unit.z.raw == rz);
    lemma_fundamental_div_mod(big.0 * one, len);
    lemma_fundamental_div_mod(big.1 * one, len);
    lemma_fundamental_div_mod(big.2 * one, len);
    lemma_mod_bound(big.0 * one, len);
    lemma_mod_bound(big.1 * one, len);
    lemma_mod_bound(big.2 * one, len);
    lemma_product_rest(big.0, len, rx, (big.0 * one) % len, d.x.raw as int);
    lemma_product_rest(big.1, len, ry, (big.1 * one) % len, d.y.raw as int);
    lemma_product_rest(big.2, len, rz, (big.2 * one) % len, d.z.raw as int);
    let e = exact_dot(unit, d);
    let dot = exact_dot(v, d);
    assert(len * e == len * (rx * d.x.raw) + len * (ry * d.y.raw) + len * (rz * d.z.raw))
        by (nonlinear_arith)
        requires
            e == rx * d.x.raw + ry * d.y.raw + rz * d.z.raw,
    ;
    lemma_multiple_product(m, x, d.x.raw as int);
    lemma_multiple_product(m, y, d.y.raw as int);
    lemma_multiple_product(m, z, d.z.raw as int);
    let px = x * d.x.raw;
    let py = y * d.y.raw;
    let pz = z * d.z.raw;
    assert(m * px + m * py + m * pz == m * (px + py + pz)) by (nonlinear_arith);
    assert(big.0 * d.x.raw + big.1 * d.y.raw + big.2 * d.z.raw == m * dot);
    let whole = one * (big.0 * d.x.raw) + one * (big.1 * d.y.raw) + one * (big.2 * d.z.raw);
    assert(whole == (m * one) * dot) by (nonlinear_arith)
        requires
            whole == one * (big.0 * d.x.raw) + one * (big.1 * d.y.raw) + one * (big.2 * d.z.raw),
            big.0 * d.x.raw + big.1 * d.y.raw + big.2 * d.z.raw == m * dot,
    ;
    assert(whole - 3 * (len * one) <= len * e <= whole + 3 * (len * one));
    let wide = m * one;
    if bound > 0 {
        lemma_multiple_product(m, x, m * x);
        lemma_multiple_product(m, y, m * y);
        lemma_multiple_product(m, z, m * z);
        let sx = square(x);
        let sy = square(y);
        let sz = square(z);
        assert(x * (m * x) == m * sx && y * (m * y) == m * sy && z * (m * z) == m * sz)
            by (nonlinear_arith)
            requires
                sx == x * x,
                sy == y * y,
                sz == z * z,
        ;
        assert(m * (m * sx) + m * (m * sy) + m * (m * sz) == (m * m) * (sx + sy + sz))
            by (nonlinear_arith);
        assert(n == (m * m) * v.squared_norm());
        assert(wide * wide <= 4 * n) by (nonlinear_arith)
            requires
                wide == m * one,
                n == (m * m) * v.squared_norm(),
                4 * v.squared_norm() >= one * one,
        ;
        assert(wide <= 2 * len + 1) by (nonlinear_arith)
            requires
                wide * wide <= 4 * n,
                n < (len + 1) * (len + 1),
                0 <= len,
                0 <= wide,
        ;
        assert(-((2 * len + 1) * bound) <= wide * dot <= (2 * len + 1) * bound)
            by (nonlinear_arith)
            requires
                0 <= wide <= 2 * len + 1,
                -bound <= dot <= bound,
        ;
    } else {
        assert(wide * dot == 0) by (nonlinear_arith)
            requires
                dot == 0,
        ;
    }
    let most = 2 * bound + 3 * one + 1;
    assert(len * most == (2 * len + 1) * bound + 3 * (len * one) + (len - bound))
        by (nonlinear_arith)
        requires
            most == 2 * bound + 3 * one + 1,
    ;
    assert(-(len * most) <= len * e <= len * most);
    assert(-most <= e <= most) by (nonlinear_arith)
        requires
            -(len * most) <= len * e <= len * most,
            len > 0,
    ;
}

/// A product of a number within one and a number within `k`: it lies
/// within `k`, and it is the exact product over `ONE_RAW`, rounded down.
proof fn lemma_times_rest(a: Fixed, b: Fixed, k: int)
    requires
        -ONE_RAW <= a.raw <= ONE_RAW,
        -k * ONE_RAW <= b.raw <= k * ONE_RAW,
        1 <= k <= 4,
    ensures
        -k * ONE_RAW <= a.times(b).raw <= k * ONE_RAW,
        0 <= a.raw * b.raw - ONE_RAW * a.times(b).raw < ONE_RAW,
{
    let one = ONE_RAW as int;
    let p = a.raw * b.raw;
    let q = p / one;
    lemma_fundamental_div_mod(p, one);
    lemma_mod_bound(p, one);
    let lim = k * one;
    assert(-(one * lim) <= p <= one * lim) by (nonlinear_arith)
        requires
            p == a.raw * b.raw,
            -one <= a.raw <= one,
            -lim <= b.raw <= lim,
    ;
    assert(-lim <= q <= lim) by (nonlinear_arith)
        requires
            p == one * q + p % one,
            0 <= p % one < one,
            -(one * lim) <= p <= one * lim,
            one > 0,
    ;
}

/// One coordinate of the part along an axis: with `e == d * s - ONE_RAW * g`,
/// `ONE_RAW * (g * d)` is `s * (d * d) - e * d`.
proof fn lemma_part_along(g: int, d: int, s: int, e: int)
    requires
        e == d * s - ONE_RAW * g,
    ensures
        ONE_RAW * (g * d) == s * (d * d) - e * d,
{
    assert(ONE_RAW * (g * d) == s * (d * d) - (d * s - ONE_RAW * g) * d) by (nonlinear_arith);
}

/// `v` without its part along `axis`: `v - axis (v . axis)`.
pub open spec fn off_axis(v: Vec3, axis: Vec3) -> Vec3 {
    v.minus(axis.scaled_by(v.dot(axis)))
}

/// What is left of a vector within one when its part along a unit vector is
/// taken away stands at a right angle to the unit vector: the scalar product
/// of the two is at most `25 * ONE_RAW` in size. No coordinate of what is
/// left lies beyond four.
pub proof fn lemma_off_axis(v: Vec3, axis: Vec3)
    requires
        unit_bounded(v),
        unit_bounded(axis),
        unit_length(axis),
    ensures
        -25 * ONE_RAW <= exact_dot(off_axis(v, axis), axis) <= 25 * ONE_RAW,
        -4 * ONE_RAW <= off_axis(v, axis).x.raw <= 4 * ONE_RAW,
        -4 * ONE_RAW <= off_axis(v, axis).y.raw <= 4 * ONE_RAW,
        -4 * ONE_RAW <= off_axis(v, axis).z.raw <= 4 * ONE_RAW,
{
    let one = ONE_RAW as int;
    let d = axis;
    lemma_times_rest(v.x, d.x, 1);
    lemma_times_rest(v.y, d.y, 1);
    lemma_times_rest(v.z, d.z, 1);
    let s = v.dot(d);
    assert(s.raw == v.x.times(d.x).raw + v.y.times(d.y).raw + v.z.times(d.z).raw);
    let whole = exact_dot(v, d);
    let rest = whole - one * s.raw;
    assert(0 <= rest < 3 * one);
    lemma_times_rest(d.x, s, 3);
    lemma_times_rest(d.y, s, 3);
    lemma_times_rest(d.z, s, 3);
    let g = d.scaled_by(s);
    let off = off_axis(v, d);
    assert(off.x.raw == v.x.raw - g.x.raw);
    assert(off.y.raw == v.y.raw - g.y.raw);
    assert(off.z.raw == v.z.raw - g.z.raw);
    let ex = d.x.raw * s.raw - one * g.x.raw;
    let ey = d.y.raw * s.raw - one * g.y.raw;
    let ez = d.z.raw * s.raw - one * g.z.raw;
    let norm = d.squared_norm();
    let along = g.x.raw * d.x.raw + g.y.raw * d.y.raw + g.z.raw * d.z.raw;
    let rests = ex * d.x.raw + ey * d.y.raw + ez * d.z.raw;
    lemma_part_along(g.x.raw as int, d.x.raw as int, s.raw as int, ex);
    lemma_part_along(g.y.raw as int, d.y.raw as int, s.raw as int, ey);
    lemma_part_along(g.z.raw as int, d.z.raw as int, s.raw as int, ez);
    let nx = d.x.raw * d.x.raw;
    let ny = d.y.raw * d.y.raw;
    let nz = d.z.raw * d.z.raw;
    assert(s.raw * nx + s.raw * ny + s.raw * nz == s.raw * (nx + ny + nz)) by (nonlinear_arith);
    let ax = g.x.raw * d.x.raw;
    let ay = g.y.raw * d.y.raw;
    let az = g.z.raw * d.z.raw;
    assert(one * ax + one * ay + one * az == one * (ax + ay + az)) by (nonlinear_arith);
    assert(one * along == s.raw * norm - rests);
    assert(-(3 * (one * one)) <= rests <= 3 * (one * one)) by (nonlinear_arith)
        requires
            rests == ex * d.x.raw + ey * d.y.raw + ez * d.z.raw,
            0 <= ex < one,
            0 <= ey < one,
            0 <= ez < one,
            -one <= d.x.raw <= one,
            -one <= d.y.raw <= one,
            -one <= d.z.raw <= one,
    ;
    let left = exact_dot(off, d);
    assert(left == whole - along) by (nonlinear_arith)
        requires
            left == (v.x.raw - g.x.raw) * d.x.raw + (v.y.raw - g.y.raw) * d.y.raw + (v.z.raw
                - g.z.raw) * d.z.raw,
            whole == v.x.raw * d.x.raw + v.y.raw * d.y.raw + v.z.raw * d.z.raw,
            along == g.x.raw * d.x.raw + g.y.raw * d.y.raw + g.z.raw * d.z.raw,
    ;
    let gap = one * one - norm;
    assert(one * left == s.raw * gap + one * rest + rests) by (nonlinear_arith)
        requires
            left == whole - along,
            one * along == s.raw * norm - rests,
            rest == whole - one * s.raw,
            gap == one * one - norm,
    ;
    assert(-(3 * one * (6 * one + 3)) <= s.raw * gap <= 3 * one * (6 * one + 3))
        by (nonlinear_arith)
        requires
            -3 * one <= s.raw <= 3 * one,
            -(6 * one + 3) <= gap <= 6 * one + 3,
    ;
    assert(0 <= one * rest <= 3 * (one * one)) by (nonlinear_arith)
        requires
            0 <= rest < 3 * one,
            one > 0,
    ;
    assert(-(25 * one) <= left <= 25 * one) by (nonlinear_arith)
        requires
            one * left == s.raw * gap + one * rest + rests,
            -(3 * one * (6 * one + 3)) <= s.raw * gap <= 3 * one * (6 * one + 3),
            0 <= one * rest <= 3 * (one * one),
            -(3 * (one * one)) <= rests <= 3 * (one * one),
            one == 1_000_000_000,
    ;
}

/// The vector that `any_orthogonal` gives for a unit vector stands at a right
/// angle to it.
pub proof fn lemma_any_orthogonal(axis: Vec3)
    requires
        unit_bounded(axis),
        unit_length(axis),
    ensures
        at_right_angle(axis.any_orthogonal(), axis),
        unit_bounded(axis.any_orthogonal()),
        unit_length(axis.any_orthogonal()),
{
    let x = axis.x.raw as int;
    let y = axis.y.raw as int;
    let z = axis.z.raw as int;
    assert(square(0) == 0);
    let flat = if axis.x.abs().raw > axis.y.abs().raw {
        Vec3 { x: axis.z.negated(), y: Fixed { raw: 0 }, z: axis.x }
    } else {
        Vec3 { x: Fixed { raw: 0 }, y: axis.z, z: axis.y.negated() }
    };
    assert(exact_dot(flat, axis) == 0) by (nonlinear_arith)
        requires
            exact_dot(flat, axis) == flat.x.raw * x + flat.y.raw * y + flat.z.raw * z,
            (flat.x.raw == -z && flat.y.raw == 0 && flat.z.raw == x) || (flat.x.raw == 0
                && flat.y.raw == z && flat.z.raw == -y),
    ;
    if !(axis.x.abs().raw > axis.y.abs().raw) && z == 0 && y == 0 {
        assert(x == 0);
        assert(axis.squared_norm() == 0) by (nonlinear_arith)
            requires
                axis.squared_norm() == x * x + y * y + z * z,
                x == 0,
                y == 0,
                z == 0,
        ;
    }
    lemma_normalized_dot(flat, axis, 0);
    lemma_normalized_length(flat);
}

/// The square of half a unit, in squared raw units.
pub const QUARTER: u128 = 250_000_000_000_000_000;

/// The vector of length one that stands across `axis` where `v` points:
/// `v` is normalized, its part along `axis` is taken away, and what is left
/// is normalized. Where less than half a unit is left, because `v` runs
/// along `axis`, the result is the vector that `any_orthogonal` gives for
/// `axis`.
pub open spec fn across_spec(v: Vec3, axis: Vec3) -> Vec3 {
    let off = off_axis(v.normalized(), axis);
    if off.squared_norm() < QUARTER {
        axis.any_orthogonal()
    } else {
        off.normalized()
    }
}

/// Whatever `v` is, the vector across a unit vector `axis` has length one
/// and stands at a right angle to `axis`.
pub proof fn lemma_across(v: Vec3, axis: Vec3)
    ensures
        unit_bounded(across_spec(v, axis)),
        unit_length(across_spec(v, axis)),
        unit_bounded(axis) && unit_length(axis) ==> at_right_angle(across_spec(v, axis), axis),
{
    let unit = v.normalized();
    lemma_normalized_length(v);
    let off = off_axis(unit, axis);
    lemma_normalized_length(off);
    lemma_normalized_length(
        if axis.x.abs().raw > axis.y.abs().raw {
            Vec3 { x: axis.z.negated(), y: Fixed { raw: 0 }, z: axis.x }
        } else {
            Vec3 { x: Fixed { raw: 0 }, y: axis.z, z: axis.y.negated() }
        },
    );
    if unit_bounded(axis) && unit_length(axis) {
        if off.squared_norm() < QUARTER {
            lemma_any_orthogonal(axis);
        } else {
            lemma_off_axis(unit, axis);
            if reach(off.x.raw as int, off.y.raw as int, off.z.raw as int) == 0 {
                assert(off.squared_norm() == 0) by (nonlinear_arith)
                    requires
                        off.squared_norm() == off.x.raw * off.x.raw + off.y.raw * off.y.raw
                            + off.z.raw * off.z.raw,
                        off.x.raw == 0,
                        off.y.raw == 0,
                        off.z.raw == 0,
                ;
            }
            lemma_normalized_dot(off, axis, 25 * ONE_RAW);
        }
    }
}

/// The vector of length one that stands across `axis` where `v` points.
#[verifier::when_used_as_spec(across_spec)]
pub fn across(v: Vec3, axis: Vec3) -> (r: Vec3)
    ensures
        r == across_spec(v, axis),
        unit_bounded(r),
        unit_length(r),
        unit_bounded(axis) && unit_length(axis) ==> at_right_angle(r, axis),
{
    proof {
        lemma_across(v, axis);
    }
    let unit = v.normalized();
    let off = unit.minus(axis.scaled_by(unit.dot(axis)));
    if off.squared_norm_wide() < QUARTER {
        axis.any_orthogonal()
    } else {
        off.normalized()
    }
}

/// By how far the squared length of a vector may miss one, in raw units, for
/// its angles to be kept when it is normalized.
pub const NEAR_UNIT: i64 = 160_000_000_000;

/// `v` has nearly the length one: its squared norm is within 160 billionths
/// of one.
pub open spec fn near_unit(v: Vec3) -> bool {
    ONE_RAW * ONE_RAW - NEAR_UNIT <= v.squared_norm() <= ONE_RAW * ONE_RAW + NEAR_UNIT
}

/// Normalizing a vector of nearly the length one keeps its angles: where the
/// scalar product of `v` with a vector `d` within one is within `slack` of
/// `target`, a number of at most one in size, the scalar product of the
/// normalized `v` with `d` is within `2 * (NEAR_UNIT + slack) + 3 * ONE_RAW + 1`
/// of `target`.
pub proof fn lemma_normalized_cosine(v: Vec3, d: Vec3, target: int, slack: int)
    requires
        unit_bounded(d),
        near_unit(v),
        -(ONE_RAW * ONE_RAW) <= target <= ONE_RAW * ONE_RAW,
        0 <= slack <= NORMAL_SIZE / 2,
        target - slack <= exact_dot(v, d) <= target + slack,
    ensures
        target - (2 * (NEAR_UNIT + slack) + 3 * ONE_RAW + 1) <= exact_dot(v.normalized(), d)
            <= target + (2 * (NEAR_UNIT + slack) + 3 * ONE_RAW + 1),
{
    let one = ONE_RAW as int;
    let x = v.x.raw as int;
    let y = v.y.raw as int;
    let z = v.z.raw as int;
    let norm = v.squared_norm();
    if reach(x, y, z) == 0 {
        assert(norm == 0) by (nonlinear_arith)
            requires
                norm == x * x + y * y + z * z,
                x == 0,
                y == 0,
                z == 0,
        ;
    }
    let m = stretch(x, y, z);
    lemma_stretch(x, y, z);
    lemma_enlarged(x, y, z);
    let big = enlarged(x, y, z);
    let n = square(big.0) + square(big.1) + square(big.2);
    let len = isqrt(n);
    lemma_reach_square(big.0, big.1, big.2);
    assert(square(reach(big.0, big.1, big.2)) >= 0) by (nonlinear_arith);
    lemma_isqrt_exists(n);
    lemma_root_dominates(reach(big.0, big.1, big.2), n);
    lemma_ratio_bounded(big.0, len);
    lemma_ratio_bounded(big.1, len);
    lemma_ratio_bounded(big.2, len);
    let rx = (big.0 * one) / len;
    let ry = (big.1 * one) / len;
    let rz = (big.2 * one) / len;
    let unit = v.normalized();
    assert(unit.x.raw == rx && unit.y.raw == ry && unit.z.raw == rz);
    lemma_fundamental_div_mod(big.0 * one, len);
    lemma_fundamental_div_mod(big.1 * one, len);
    lemma_fundamental_div_mod(big.2 * one, len);
    lemma_mod_bound(big.0 * one, len);
    lemma_mod_bound(big.1 * one, len);
    lemma_mod_bound(big.2 * one, len);
    lemma_product_rest(big.0, len, rx, (big.0 * one) % len, d.x.raw as int);
    lemma_product_rest(big.1, len, ry, (big.1 * one) % len, d.y.raw as int);
    lemma_product_rest(big.2, len, rz, (big.2 * one) % len, d.z.raw as int);
    let e = exact_dot(unit, d);
    let dot = exact_dot(v, d);
    assert(len * e == len * (rx * d.x.raw) + len * (ry * d.y.raw) + len * (rz * d.z.raw))
        by (nonlinear_arith)
        requires
            e == rx * d.x.raw + ry * d.y.raw + rz * d.z.raw,
    ;
    lemma_multiple_product(m, x, d.x.raw as int);
    lemma_multiple_product(m, y, d.y.raw as int);
    lemma_multiple_product(m, z, d.z.raw as int);
    let px = x * d.x.raw;
    let py = y * d.y.raw;
    let pz = z * d.z.raw;
    assert(m * px + m * py + m * pz == m * (px + py + pz)) by (nonlinear_arith);
    assert(big.0 * d.x.raw + big.1 * d.y.raw + big.2 * d.z.raw == m * dot);
    let whole = one * (big.0 * d.x.raw) + one * (big.1 * d.y.raw) + one * (big.2 * d.z.raw);
    let wide = m * one;
    assert(whole == wide * dot) by (nonlinear_arith)
        requires
            whole == one * (big.0 * d.x.raw) + one * (big.1 * d.y.raw) + one * (big.2 * d.z.raw),
            big.0 * d.x.raw + big.1 * d.y.raw + big.2 * d.z.raw == m * dot,
            wide == m * one,
    ;
    assert(whole - 3 * (len * one) <= len * e <= whole + 3 * (len * one));
    lemma_multiple_product(m, x, m * x);
    lemma_multiple_product(m, y, m * y);
    lemma_multiple_product(m, z, m * z);
    let sx = square(x);
    let sy = square(y);
    let sz = square(z);
    assert(x * (m * x) == m * sx && y * (m * y) == m * sy && z * (m * z) == m * sz)
        by (nonlinear_arith)
        requires
            sx == x * x,
            sy == y * y,
            sz == z * z,
    ;
    assert(m * (m * sx) + m * (m * sy) + m * (m * sz) == (m * m) * (sx + sy + sz))
        by (nonlinear_arith);
    assert(n == (m * m) * norm);
    let near = NEAR_UNIT as int;
    let step = 160 * m;
    assert(wide * wide == (m * m) * (one * one)) by (nonlinear_arith)
        requires
            wide == m * one,
    ;
    assert((m * m) * near == step * wide) by (nonlinear_arith)
        requires
            near == 160 * one,
            step == 160 * m,
            wide == m * one,
    ;
    assert((m * m) * (one * one) <= (m * m) * norm + (m * m) * near && (m * m) * (one * one) >= (m
        * m) * norm - (m * m) * near) by (nonlinear_arith)
        requires
            one * one - near <= norm <= one * one + near,
    ;
    assert(wide * wide <= 4 * n) by (nonlinear_arith)
        requires
            wide * wide == (m * m) * (one * one),
            n == (m * m) * norm,
            4 * norm >= one * one,
    ;
    assert(wide <= 2 * len + 1) by (nonlinear_arith)
        requires
            wide * wide <= 4 * n,
            n < (len + 1) * (len + 1),
            0 <= len,
            0 <= wide,
    ;
    assert(wide - step <= len) by (nonlinear_arith)
        requires
            wide * wide <= n + step * wide,
            n < (len + 1) * (len + 1),
            0 <= len,
            0 <= wide,
            0 <= step,
    ;
    assert(wide + step >= len) by (nonlinear_arith)
        requires
            wide * wide >= n - step * wide,
            len * len <= n,
            0 <= len,
            0 <= wide,
            0 <= step,
    ;
    let drift = (wide - len) * target;
    assert(-(step * (one * one)) <= drift <= step * (one * one)) by (nonlinear_arith)
        requires
            drift == (wide - len) * target,
            -step <= wide - len <= step,
            -(one * one) <= target <= one * one,
    ;
    assert(step * (one * one) == 160 * (wide * one)) by (nonlinear_arith)
        requires
            step == 160 * m,
            wide == m * one,
    ;
    assert(wide * one <= (2 * len + 1) * one) by (nonlinear_arith)
        requires
            wide <= 2 * len + 1,
            one > 0,
    ;
    let miss = dot - target;
    assert(-((2 * len + 1) * slack) <= wide * miss <= (2 * len + 1) * slack) by (nonlinear_arith)
        requires
            0 <= wide <= 2 * len + 1,
            -slack <= miss <= slack,
    ;
    assert(wide * dot == len * target + drift + wide * miss) by (nonlinear_arith)
        requires
            drift == (wide - len) * target,
            miss == dot - target,
    ;
    let most = 2 * (near + slack) + 3 * one + 1;
    assert(len * most == (2 * len + 1) * (near + slack) + 3 * (len * one) + (len - near - slack))
        by (nonlinear_arith)
        requires
            most == 2 * (near + slack) + 3 * one + 1,
    ;
    assert((2 * len + 1) * (near + slack) == 160 * ((2 * len + 1) * one) + (2 * len + 1) * slack)
        by (nonlinear_arith)
        requires
            near == 160 * one,
    ;
    assert(len * target - len * most <= len * e <= len * target + len * most);
    assert(target - most <= e <= target + most) by (nonlinear_arith)
        requires
            len * target - len * most <= len * e <= len * target + len * most,
            len > 0,
    ;
}

/// The sine that goes with the cosine `cosine`: the root of
/// `1 - cosine^2`, rounded down, with the sign of `sine`; nothing for a
/// cosine beyond one.
pub open spec fn sine_beside_spec(cosine: Fixed, sine: Fixed) -> Fixed {
    let rest = ONE_RAW * ONE_RAW - cosine.raw * cosine.raw;
    let root = if rest < 0 {
        0
    } else {
        isqrt(rest)
    };
    Fixed {
        raw: (if sine.raw < 0 {
            -root
        } else {
            root
        }) as i64,
    }
}

/// The sine beside a cosine within one lies within one, and the squares of
/// the two add up to one, up to the rounding of the root.
pub proof fn lemma_sine_beside(cosine: Fixed, sine: Fixed)
    requires
        -ONE_RAW <= cosine.raw <= ONE_RAW,
    ensures
        -ONE_RAW <= sine_beside_spec(cosine, sine).raw <= ONE_RAW,
        ONE_RAW * ONE_RAW - 2 * ONE_RAW - 1 <= square(cosine.raw as int) + square(
            sine_beside_spec(cosine, sine).raw as int,
        ) <= ONE_RAW * ONE_RAW,
{
    let one = ONE_RAW as int;
    let c = cosine.raw as int;
    let rest = one * one - c * c;
    assert(0 <= c * c <= one * one) by (nonlinear_arith)
        requires
            -one <= c <= one,
    ;
    lemma_isqrt_exists(rest);
    let root = isqrt(rest);
    if root > one {
        assert(root * root > one * one) by (nonlinear_arith)
            requires
                root > one,
                one > 0,
        ;
    }
    assert((root + 1) * (root + 1) == root * root + 2 * root + 1) by (nonlinear_arith);
    assert((-root) * (-root) == root * root) by (nonlinear_arith);
}

/// The sine that goes with the cosine `cosine`, with the sign of `sine`.
#[verifier::when_used_as_spec(sine_beside_spec)]
pub fn sine_beside(cosine: Fixed, sine: Fixed) -> (r: Fixed)
    ensures
        r == sine_beside_spec(cosine, sine),
{
    let c: i128 = cosine.raw as i128;
    let one: i128 = ONE_RAW as i128;
    if c > one || c < -one {
        assert(c * c > one * one) by (nonlinear_arith)
            requires
                c > one || c < -one,
                one > 0,
        ;
        return Fixed { raw: 0 };
    }
    assert(0 <= c * c <= one * one) by (nonlinear_arith)
        requires
            -one <= c <= one,
    ;
    let found: u64 = isqrt_wide((one * one - c * c) as u128);
    assert(found <= one) by (nonlinear_arith)
        requires
            found * found <= one * one - c * c,
            0 <= c * c,
            one > 0,
    ;
    let root: i64 = found as i64;
    if sine.raw < 0 {
        Fixed { raw: -root }
    } else {
        Fixed { raw: root }
    }
}

/// By how many billionths the cosine of the angle of a leaning vector may
/// miss the cosine that was asked for.
pub const LEAN_SLACK: i64 = 470;

/// `v` stands to `axis`, two vectors of length one, at the angle whose
/// cosine is `cosine`, up to rounding: their scalar product is within 470
/// billionths of `cosine`.
pub open spec fn at_cosine(v: Vec3, axis: Vec3, cosine: Fixed) -> bool {
    ONE_RAW * cosine.raw - LEAN_SLACK * ONE_RAW <= exact_dot(v, axis) <= ONE_RAW * cosine.raw
        + LEAN_SLACK * ONE_RAW
}

/// The vector of length one that leans from `axis` toward `side`:
/// `axis * cosine + side * sine`, normalized.
pub open spec fn leaning_spec(axis: Vec3, side: Vec3, cosine: Fixed, sine: Fixed) -> Vec3 {
    axis.scaled_by(cosine).plus(side.scaled_by(sine)).normalized()
}

/// One coordinate of a leaning vector along the axis: with
/// `ONE_RAW * r == d * c + p * s - g`, `ONE_RAW * (r * d)` is
/// `c * (d * d) + s * (p * d) - g * d`.
proof fn lemma_lean_along(r: int, d: int, p: int, c: int, s: int, g: int)
    requires
        ONE_RAW * r == d * c + p * s - g,
    ensures
        ONE_RAW * (r * d) == c * (d * d) + s * (p * d) - g * d,
{
    assert((d * c + p * s - g) * d == c * (d * d) + s * (p * d) - g * d) by (nonlinear_arith);
    assert(ONE_RAW * (r * d) == (ONE_RAW * r) * d) by (nonlinear_arith);
}

/// The square of one coordinate of a leaning vector: with
/// `ONE_RAW * r == d * c + p * s - g` and a rest `g` under two, the square
/// of `ONE_RAW * r` is `c^2 d^2 + 2 c s d p + s^2 p^2` up to eight.
proof fn lemma_lean_square(r: int, d: int, p: int, c: int, s: int, g: int)
    requires
        ONE_RAW * r == d * c + p * s - g,
        0 <= g < 2 * ONE_RAW,
        -ONE_RAW <= d <= ONE_RAW,
        -ONE_RAW <= p <= ONE_RAW,
        -ONE_RAW <= c <= ONE_RAW,
        -ONE_RAW <= s <= ONE_RAW,
    ensures
        (ONE_RAW * ONE_RAW) * (r * r) <= (c * c) * (d * d) + 2 * ((c * s) * (d * p)) + (s * s) * (p
            * p) + 8 * (ONE_RAW * ONE_RAW * ONE_RAW) + 4 * (ONE_RAW * ONE_RAW),
        (ONE_RAW * ONE_RAW) * (r * r) >= (c * c) * (d * d) + 2 * ((c * s) * (d * p)) + (s * s) * (p
            * p) - 8 * (ONE_RAW * ONE_RAW * ONE_RAW),
{
    let one = ONE_RAW as int;
    let w = d * c + p * s;
    let t = one * r;
    assert(t * t == (one * one) * (r * r)) by (nonlinear_arith)
        requires
            t == one * r,
    ;
    assert(t * t == w * w - 2 * (w * g) + g * g) by (nonlinear_arith)
        requires
            t == w - g,
    ;
    let dc = d * c;
    let ps = p * s;
    assert(-(one * one) <= dc <= one * one) by (nonlinear_arith)
        requires
            dc == d * c,
            -one <= d <= one,
            -one <= c <= one,
    ;
    assert(-(one * one) <= ps <= one * one) by (nonlinear_arith)
        requires
            ps == p * s,
            -one <= p <= one,
            -one <= s <= one,
    ;
    let lim = 2 * (one * one);
    assert(-(lim * (2 * one)) <= w * g <= lim * (2 * one)) by (nonlinear_arith)
        requires
            -lim <= w <= lim,
            0 <= g < 2 * one,
            0 <= lim,
    ;
    assert(lim * (2 * one) == 4 * (one * one * one)) by (nonlinear_arith)
        requires
            lim == 2 * (one * one),
    ;
    assert(0 <= g * g <= 4 * (one * one)) by (nonlinear_arith)
        requires
            0 <= g < 2 * one,
    ;
    assert(w * w == dc * dc + 2 * (dc * ps) + ps * ps) by (nonlinear_arith)
        requires
            w == dc + ps,
    ;
    assert(dc * dc == (c * c) * (d * d)) by (nonlinear_arith)
        requires
            dc == d * c,
    ;
    assert(ps * ps == (s * s) * (p * p)) by (nonlinear_arith)
        requires
            ps == p * s,
    ;
    assert(dc * ps == (c * s) * (d * p)) by (nonlinear_arith)
        requires
            dc == d * c,
            ps == p * s,
    ;
}

/// A vector that leans from a unit vector `axis` toward a unit vector `side`
/// at a right angle to it, by a cosine and a sine whose squares add up to
/// one, has length one and stands to `axis` at the angle of that cosine.
pub proof fn lemma_leaning(axis: Vec3, side: Vec3, cosine: Fixed, sine: Fixed)
    requires
        unit_bounded(axis),
        unit_length(axis),
        unit_bounded(side),
        unit_length(side),
        at_right_angle(side, axis),
        -ONE_RAW <= cosine.raw <= ONE_RAW,
        -ONE_RAW <= sine.raw <= ONE_RAW,
        ONE_RAW * ONE_RAW - 2 * ONE_RAW - 1 <= square(cosine.raw as int) + square(sine.raw as int)
            <= ONE_RAW * ONE_RAW,
    ensures
        unit_bounded(leaning_spec(axis, side, cosine, sine)),
        unit_length(leaning_spec(axis, side, cosine, sine)),
        at_cosine(leaning_spec(axis, side, cosine, sine), axis, cosine),
{
    let one = ONE_RAW as int;
    let o2 = one * one;
    let o3 = one * one * one;
    let d = axis;
    let p = side;
    let c = cosine.raw as int;
    let s = sine.raw as int;
    lemma_times_rest(d.x, cosine, 1);
    lemma_times_rest(d.y, cosine, 1);
    lemma_times_rest(d.z, cosine, 1);
    lemma_times_rest(p.x, sine, 1);
    lemma_times_rest(p.y, sine, 1);
    lemma_times_rest(p.z, sine, 1);
    let a = d.scaled_by(cosine);
    let b = p.scaled_by(sine);
    let lean = a.plus(b);
    assert(lean.x.raw == a.x.raw + b.x.raw);
    assert(lean.y.raw == a.y.raw + b.y.raw);
    assert(lean.z.raw == a.z.raw + b.z.raw);
    let gx = d.x.raw * c + p.x.raw * s - one * lean.x.raw;
    let gy = d.y.raw * c + p.y.raw * s - one * lean.y.raw;
    let gz = d.z.raw * c + p.z.raw * s - one * lean.z.raw;
    assert(0 <= gx < 2 * one && 0 <= gy < 2 * one && 0 <= gz < 2 * one);
    let dd = d.squared_norm();
    let pp = p.squared_norm();
    let pd = exact_dot(p, d);
    // The scalar product with the axis.
    lemma_lean_along(lean.x.raw as int, d.x.raw as int, p.x.raw as int, c, s, gx);
    lemma_lean_along(lean.y.raw as int, d.y.raw as int, p.y.raw as int, c, s, gy);
    lemma_lean_along(lean.z.raw as int, d.z.raw as int, p.z.raw as int, c, s, gz);
    let dot = exact_dot(lean, d);
    let rests = gx * d.x.raw + gy * d.y.raw + gz * d.z.raw;
    let dx2 = d.x.raw * d.x.raw;
    let dy2 = d.y.raw * d.y.raw;
    let dz2 = d.z.raw * d.z.raw;
    let qx = p.x.raw * d.x.raw;
    let qy = p.y.raw * d.y.raw;
    let qz = p.z.raw * d.z.raw;
    assert(c * dx2 + c * dy2 + c * dz2 == c * (dx2 + dy2 + dz2)) by (nonlinear_arith);
    assert(s * qx + s * qy + s * qz == s * (qx + qy + qz)) by (nonlinear_arith);
    let lx = lean.x.raw * d.x.raw;
    let ly = lean.y.raw * d.y.raw;
    let lz = lean.z.raw * d.z.raw;
    assert(one * lx + one * ly + one * lz == one * (lx + ly + lz)) by (nonlinear_arith);
    assert(one * dot == c * dd + s * pd - rests);
    assert(-(6 * o2) <= rests <= 6 * o2) by (nonlinear_arith)
        requires
            rests == gx * d.x.raw + gy * d.y.raw + gz * d.z.raw,
            0 <= gx < 2 * one,
            0 <= gy < 2 * one,
            0 <= gz < 2 * one,
            -one <= d.x.raw <= one,
            -one <= d.y.raw <= one,
            -one <= d.z.raw <= one,
            o2 == one * one,
    ;
    let gap = dd - o2;
    assert(-(one * (6 * one + 3)) <= c * gap <= one * (6 * one + 3)) by (nonlinear_arith)
        requires
            -one <= c <= one,
            -(6 * one + 3) <= gap <= 6 * one,
    ;
    assert(-(one * (60 * one)) <= s * pd <= one * (60 * one)) by (nonlinear_arith)
        requires
            -one <= s <= one,
            -(60 * one) <= pd <= 60 * one,
    ;
    assert(c * dd == c * o2 + c * gap) by (nonlinear_arith)
        requires
            gap == dd - o2,
    ;
    let target = one * c;
    assert(one * target == c * o2) by (nonlinear_arith)
        requires
            target == one * c,
            o2 == one * one,
    ;
    assert(target - 73 * one <= dot <= target + 73 * one) by (nonlinear_arith)
        requires
            one * dot == c * dd + s * pd - rests,
            c * dd == c * o2 + c * gap,
            one * target == c * o2,
            -(one * (6 * one + 3)) <= c * gap <= one * (6 * one + 3),
            -(one * (60 * one)) <= s * pd <= one * (60 * one),
            -(6 * o2) <= rests <= 6 * o2,
            o2 == one * one,
            one == 1_000_000_000,
    ;
    // The squared length.
    lemma_lean_square(lean.x.raw as int, d.x.raw as int, p.x.raw as int, c, s, gx);
    lemma_lean_square(lean.y.raw as int, d.y.raw as int, p.y.raw as int, c, s, gy);
    lemma_lean_square(lean.z.raw as int, d.z.raw as int, p.z.raw as int, c, s, gz);
    let cc = c * c;
    let ss = s * s;
    let cs = c * s;
    let px2 = p.x.raw * p.x.raw;
    let py2 = p.y.raw * p.y.raw;
    let pz2 = p.z.raw * p.z.raw;
    let mx = d.x.raw * p.x.raw;
    let my = d.y.raw * p.y.raw;
    let mz = d.z.raw * p.z.raw;
    assert(cc * dx2 + cc * dy2 + cc * dz2 == cc * (dx2 + dy2 + dz2)) by (nonlinear_arith);
    assert(ss * px2 + ss * py2 + ss * pz2 == ss * (px2 + py2 + pz2)) by (nonlinear_arith);
    assert(cs * mx + cs * my + cs * mz == cs * (mx + my + mz)) by (nonlinear_arith);
    assert(mx == qx && my == qy && mz == qz) by (nonlinear_arith)
        requires
            mx == d.x.raw * p.x.raw,
            my == d.y.raw * p.y.raw,
            mz == d.z.raw * p.z.raw,
            qx == p.x.raw * d.x.raw,
            qy == p.y.raw * d.y.raw,
            qz == p.z.raw * d.z.raw,
    ;
    let norm = lean.squared_norm();
    let rx2 = lean.x.raw * lean.x.raw;
    let ry2 = lean.y.raw * lean.y.raw;
    let rz2 = lean.z.raw * lean.z.raw;
    assert(o2 * rx2 + o2 * ry2 + o2 * rz2 == o2 * (rx2 + ry2 + rz2)) by (nonlinear_arith);
    let main = cc * dd + 2 * (cs * pd) + ss * pp;
    assert(main - 24 * o3 <= o2 * norm <= main + 24 * o3 + 12 * o2);
    assert(0 <= cc <= o2 && 0 <= ss <= o2 && -o2 <= cs <= o2) by (nonlinear_arith)
        requires
            cc == c * c,
            ss == s * s,
            cs == c * s,
            -one <= c <= one,
            -one <= s <= one,
            o2 == one * one,
    ;
    assert(cc * (o2 - 6 * one - 3) <= cc * dd <= cc * (o2 + 6 * one)) by (nonlinear_arith)
        requires
            0 <= cc,
            o2 - 6 * one - 3 <= dd <= o2 + 6 * one,
    ;
    assert(ss * (o2 - 6 * one - 3) <= ss * pp <= ss * (o2 + 6 * one)) by (nonlinear_arith)
        requires
            0 <= ss,
            o2 - 6 * one - 3 <= pp <= o2 + 6 * one,
    ;
    assert(-(o2 * (60 * one)) <= cs * pd <= o2 * (60 * one)) by (nonlinear_arith)
        requires
            -o2 <= cs <= o2,
            -(60 * one) <= pd <= 60 * one,
    ;
    let both = cc + ss;
    assert(cc * (o2 + 6 * one) + ss * (o2 + 6 * one) == both * (o2 + 6 * one))
        by (nonlinear_arith)
        requires
            both == cc + ss,
    ;
    assert(cc * (o2 - 6 * one - 3) + ss * (o2 - 6 * one - 3) == both * (o2 - 6 * one - 3))
        by (nonlinear_arith)
        requires
            both == cc + ss,
    ;
    assert(both * (o2 + 6 * one) <= o2 * (o2 + 6 * one)) by (nonlinear_arith)
        requires
            0 <= both <= o2,
            0 <= o2 + 6 * one,
    ;
    assert(both * (o2 - 6 * one - 3) >= (o2 - 2 * one - 1) * (o2 - 6 * one - 3))
        by (nonlinear_arith)
        requires
            both >= o2 - 2 * one - 1,
            o2 - 6 * one - 3 >= 0,
    ;
    assert((o2 - 2 * one - 1) * (o2 - 6 * one - 3) >= o2 * o2 - 9 * o3 && o2 * (60 * one) == 60
        * o3 && o2 * (o2 + 6 * one) == o2 * o2 + 6 * o3 && 12 * o2 <= o3) by (nonlinear_arith)
        requires
            o2 == one * one,
            o3 == one * one * one,
            one == 1_000_000_000,
    ;
    assert(o2 * o2 - 153 * o3 <= o2 * norm <= o2 * o2 + 151 * o3);
    assert(153 * o3 <= o2 * (160 * one) && 151 * o3 <= o2 * (160 * one)) by (nonlinear_arith)
        requires
            o2 == one * one,
            o3 == one * one * one,
            one > 0,
    ;
    assert(o2 - 160 * one <= norm <= o2 + 160 * one) by (nonlinear_arith)
        requires
            o2 * o2 - o2 * (160 * one) <= o2 * norm <= o2 * o2 + o2 * (160 * one),
            o2 > 0,
    ;
    assert(near_unit(lean));
    assert(-o2 <= target <= o2) by (nonlinear_arith)
        requires
            target == one * c,
            -one <= c <= one,
            o2 == one * one,
            one > 0,
    ;
    lemma_normalized_cosine(lean, d, target, 73 * one);
    lemma_normalized_length(lean);
}

/// Whether `axis` and `side` are unit vectors at a right angle, and
/// `cosine` and `sine` lie within one and have squares that add up to one,
/// up to rounding.
pub open spec fn leans(axis: Vec3, side: Vec3, cosine: Fixed, sine: Fixed) -> bool {
    &&& unit_bounded(axis) && unit_length(axis)
    &&& unit_bounded(side) && unit_length(side)
    &&& at_right_angle(side, axis)
    &&& -ONE_RAW <= cosine.raw <= ONE_RAW
    &&& -ONE_RAW <= sine.raw <= ONE_RAW
    &&& ONE_RAW * ONE_RAW - 2 * ONE_RAW - 1 <= square(cosine.raw as int) + square(
        sine.raw as int,
    ) <= ONE_RAW * ONE_RAW
}

/// The vector of length one that leans from `axis` toward `side` by the
/// cosine `cosine` and the sine `sine`.
#[verifier::when_used_as_spec(leaning_spec)]
pub fn leaning(axis: Vec3, side: Vec3, cosine: Fixed, sine: Fixed) -> (r: Vec3)
    ensures
        r == leaning_spec(axis, side, cosine, sine),
        unit_bounded(r),
        unit_length(r),
        leans(axis, side, cosine, sine) ==> at_cosine(r, axis, cosine),
{
    proof {
        if leans(axis, side, cosine, sine) {
            lemma_leaning(axis, side, cosine, sine);
        }
    }
    axis.scaled_by(cosine).plus(side.scaled_by(sine)).normalized()
}

} // verus!
