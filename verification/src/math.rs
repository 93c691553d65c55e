//! Elementary functions on fixed-point numbers: sine and cosine, the natural
//! logarithm, the exponential and real powers.
//!
//! Each is a short series evaluated with the saturating operations of
//! `Fixed`; the spec functions below say exactly which series.
use crate::fixed::{clamp, clamp_wide, floor_div, Fixed, MAX_RAW, MIN_RAW, ONE_RAW};
use vstd::arithmetic::div_mod::{lemma_div_is_ordered, lemma_fundamental_div_mod, lemma_mod_bound};
use vstd::prelude::*;

verus! {

/// Half a turn, in raw radians.
pub const PI_RAW: i64 = 3_141_592_653;

/// A quarter turn, in raw radians.
pub const HALF_PI_RAW: i64 = 1_570_796_326;

/// A full turn, in raw radians.
pub const TWO_PI_RAW: i64 = 6_283_185_307;

/// The natural logarithm of two, in raw units.
pub const LN2_RAW: i64 = 693_147_180;

/// Terms taken of the sine and cosine series.
pub const TRIG_STEPS: u32 = 9;

/// Terms taken of the exponential series.
pub const EXP_STEPS: u32 = 14;

/// Terms taken of the logarithm series.
pub const LN_STEPS: u32 = 10;

/// Halvings or doublings that bring any positive raw value into `[1, 2)`.
pub const NORMALIZE_STEPS: u32 = 64;

/// Arguments from which the exponential saturates.
pub const EXP_CEILING_RAW: i64 = 23_000_000_000;

/// Arguments up to which the exponential rounds to zero.
pub const EXP_FLOOR_RAW: i64 = -21_000_000_000;

/// The sum of `acc` and `steps` further terms that are subtracted and added
/// in turn, the first one subtracted where `subtract` holds. Each term is the
/// one before it times `y2 / (n (n + 1))`, and `n` advances by two.
pub open spec fn alternating_series(
    y2: Fixed,
    term: Fixed,
    acc: Fixed,
    n: int,
    steps: nat,
    subtract: bool,
) -> Fixed
    decreases steps,
{
    if steps == 0 {
        acc
    } else {
        let next = term.times(y2).scaled(Fixed { raw: 1 }, Fixed { raw: (n * (n + 1)) as i64 });
        let sum = if subtract {
            acc.minus(next)
        } else {
            acc.plus(next)
        };
        alternating_series(y2, next, sum, n + 2, (steps - 1) as nat, !subtract)
    }
}

/// `v` brought into `[0, 1]`.
pub open spec fn unit_clamp(v: Fixed) -> Fixed {
    if v.raw < 0 {
        Fixed { raw: 0 }
    } else if v.raw > ONE_RAW {
        Fixed { raw: ONE_RAW }
    } else {
        v
    }
}

/// The sine of an angle `y` of the first quadrant.
pub open spec fn quadrant_sin(y: Fixed) -> Fixed {
    unit_clamp(alternating_series(y.times(y), y, y, 2, TRIG_STEPS as nat, true))
}

/// The cosine of an angle `y` of the first quadrant.
pub open spec fn quadrant_cos(y: Fixed) -> Fixed {
    unit_clamp(
        alternating_series(
            y.times(y),
            Fixed { raw: ONE_RAW },
            Fixed { raw: ONE_RAW },
            1,
            TRIG_STEPS as nat,
            true,
        ),
    )
}

/// Sine and cosine of the angle `x`, in radians: the angle is reduced to one
/// turn and folded into the first quadrant.
pub open spec fn sin_cos_spec(x: Fixed) -> (Fixed, Fixed) {
    let r = (x.raw as int) % (TWO_PI_RAW as int);
    if r <= HALF_PI_RAW {
        let y = Fixed { raw: r as i64 };
        (quadrant_sin(y), quadrant_cos(y))
    } else if r <= PI_RAW {
        let y = Fixed { raw: (PI_RAW - r) as i64 };
        (quadrant_sin(y), quadrant_cos(y).negated())
    } else if r <= PI_RAW + HALF_PI_RAW {
        let y = Fixed { raw: (r - PI_RAW) as i64 };
        (quadrant_sin(y).negated(), quadrant_cos(y).negated())
    } else {
        let y = Fixed { raw: (TWO_PI_RAW - r) as i64 };
        (quadrant_sin(y).negated(), quadrant_cos(y))
    }
}

/// The sum `acc + t1 + t2 + ...` of `steps` further terms, where each term is
/// the one before it times `r / j` and `j` advances by one.
pub open spec fn exp_series(r: Fixed, term: Fixed, acc: Fixed, j: int, steps: nat) -> Fixed
    decreases steps,
{
    if steps == 0 {
        acc
    } else {
        let next = term.times(r).scaled(Fixed { raw: 1 }, Fixed { raw: j as i64 });
        exp_series(r, next, acc.plus(next), j + 1, (steps - 1) as nat)
    }
}

/// `v` doubled `k` times, saturating.
pub open spec fn doubled(v: Fixed, k: nat) -> Fixed
    decreases k,
{
    if k == 0 {
        v
    } else {
        doubled(v.plus(v), (k - 1) as nat)
    }
}

/// `v` halved `k` times, rounding down.
pub open spec fn halved(v: Fixed, k: nat) -> Fixed
    decreases k,
{
    if k == 0 {
        v
    } else {
        halved(Fixed { raw: ((v.raw as int) / 2) as i64 }, (k - 1) as nat)
    }
}

/// The exponential of `x`: `x` is split into a multiple `k` of `ln 2` and a
/// rest, the series gives the exponential of the rest, and the result is
/// doubled or halved `|k|` times.
pub open spec fn exp_spec(x: Fixed) -> Fixed {
    if x.raw >= EXP_CEILING_RAW {
        Fixed { raw: MAX_RAW }
    } else if x.raw <= EXP_FLOOR_RAW {
        Fixed { raw: 0 }
    } else {
        let k = (x.raw as int) / (LN2_RAW as int);
        let rest = Fixed { raw: (x.raw - k * LN2_RAW) as i64 };
        let one = Fixed { raw: ONE_RAW };
        let e = exp_series(rest, one, one, 1, EXP_STEPS as nat);
        if k >= 0 {
            doubled(e, k as nat)
        } else {
            halved(e, (-k) as nat)
        }
    }
}

/// `(m, k)` after halving `m` while it is at least two, at most `steps`
/// times; `k` counts the halvings.
pub open spec fn halvings(m: int, k: int, steps: nat) -> (int, int)
    decreases steps,
{
    if steps == 0 || m < 2 * ONE_RAW {
        (m, k)
    } else {
        halvings(m / 2, k + 1, (steps - 1) as nat)
    }
}

/// `(m, k)` after doubling `m` while it is below one, at most `steps` times;
/// `k` is lowered by the number of doublings.
pub open spec fn doublings(m: int, k: int, steps: nat) -> (int, int)
    decreases steps,
{
    if steps == 0 || m >= ONE_RAW || m <= 0 {
        (m, k)
    } else {
        doublings(2 * m, k - 1, (steps - 1) as nat)
    }
}

/// The sum `acc + p1/n + p2/(n+2) + ...` of `steps` further terms, where each
/// `p` is the one before it times `z2`.
pub open spec fn atanh_series(z2: Fixed, power: Fixed, acc: Fixed, n: int, steps: nat) -> Fixed
    decreases steps,
{
    if steps == 0 {
        acc
    } else {
        let p = power.times(z2);
        atanh_series(
            z2,
            p,
            acc.plus(p.scaled(Fixed { raw: 1 }, Fixed { raw: n as i64 })),
            n + 2,
            (steps - 1) as nat,
        )
    }
}

/// The natural logarithm of `x`: `x` is written as `m * 2^k` with `m` in
/// `[1, 2)`, and `ln m` is twice the inverse hyperbolic tangent of
/// `(m - 1) / (m + 1)`. For `x <= 0` it is the most negative number.
pub open spec fn ln_spec(x: Fixed) -> Fixed {
    if x.raw <= 0 {
        Fixed { raw: MIN_RAW }
    } else {
        let (m1, k1) = halvings(x.raw as int, 0, NORMALIZE_STEPS as nat);
        let (m, k) = doublings(m1, k1, NORMALIZE_STEPS as nat);
        let mantissa = Fixed { raw: m as i64 };
        let one = Fixed { raw: ONE_RAW };
        let z = mantissa.minus(one).over(mantissa.plus(one));
        let s = atanh_series(z.times(z), z, z, 3, LN_STEPS as nat);
        s.plus(s).plus(Fixed { raw: clamp(k * LN2_RAW) as i64 })
    }
}

/// `base` raised to `exponent`. A base that is not positive gives zero; the
/// exponents zero and one and the base one are exact.
pub open spec fn pow_spec(base: Fixed, exponent: Fixed) -> Fixed {
    if base.raw <= 0 {
        Fixed { raw: 0 }
    } else if exponent.raw == 0 || base.raw == ONE_RAW {
        Fixed { raw: ONE_RAW }
    } else if exponent.raw == ONE_RAW {
        base
    } else {
        exp_spec(exponent.times(ln_spec(base)))
    }
}

/// Sine and cosine lie between minus one and one.
pub proof fn lemma_sin_cos_bounded(x: Fixed)
    ensures
        -ONE_RAW <= sin_cos_spec(x).0.raw <= ONE_RAW,
        -ONE_RAW <= sin_cos_spec(x).1.raw <= ONE_RAW,
{
}

/// A series of terms that start at or above zero, for a rest that is not
/// negative, stays at or above zero.
proof fn lemma_exp_series_positive(r: Fixed, term: Fixed, acc: Fixed, j: int, steps: nat)
    requires
        0 <= r.raw,
        0 <= term.raw,
        0 <= acc.raw,
        1 <= j,
        j + steps <= i64::MAX,
    ensures
        exp_series(r, term, acc, j, steps).raw >= 0,
    decreases steps,
{
    if steps > 0 {
        let product = term.times(r);
        assert(term.raw * r.raw >= 0) by (nonlinear_arith)
            requires
                0 <= term.raw,
                0 <= r.raw,
        ;
        lemma_div_is_ordered(0, term.raw * r.raw, ONE_RAW as int);
        assert(product.raw >= 0);
        let next = product.scaled(Fixed { raw: 1 }, Fixed { raw: j as i64 });
        assert(product.raw * 1 == product.raw);
        lemma_div_is_ordered(0, product.raw as int, j);
        assert(next.raw >= 0);
        lemma_exp_series_positive(r, next, acc.plus(next), j + 1, (steps - 1) as nat);
    }
}

/// Doubling a number that is not negative leaves it that.
proof fn lemma_doubled_positive(v: Fixed, k: nat)
    requires
        0 <= v.raw,
    ensures
        doubled(v, k).raw >= 0,
    decreases k,
{
    if k > 0 {
        lemma_doubled_positive(v.plus(v), (k - 1) as nat);
    }
}

/// Halving a number that is not negative leaves it that.
proof fn lemma_halved_positive(v: Fixed, k: nat)
    requires
        0 <= v.raw,
    ensures
        halved(v, k).raw >= 0,
    decreases k,
{
    if k > 0 {
        lemma_halved_positive(Fixed { raw: ((v.raw as int) / 2) as i64 }, (k - 1) as nat);
    }
}

/// The exponential is never negative.
pub proof fn lemma_exp_positive(x: Fixed)
    ensures
        exp_spec(x).raw >= 0,
{
    if EXP_FLOOR_RAW < x.raw < EXP_CEILING_RAW {
        let k = (x.raw as int) / (LN2_RAW as int);
        lemma_fundamental_div_mod(x.raw as int, LN2_RAW as int);
        lemma_mod_bound(x.raw as int, LN2_RAW as int);
        let rest = Fixed { raw: (x.raw - k * LN2_RAW) as i64 };
        assert(0 <= rest.raw < LN2_RAW);
        let one = Fixed { raw: ONE_RAW };
        lemma_exp_series_positive(rest, one, one, 1, EXP_STEPS as nat);
        let e = exp_series(rest, one, one, 1, EXP_STEPS as nat);
        if k >= 0 {
            lemma_doubled_positive(e, k as nat);
        } else {
            lemma_halved_positive(e, (-k) as nat);
        }
    }
}

/// A power is never negative, whatever the base and the exponent.
pub proof fn lemma_pow_positive(base: Fixed, exponent: Fixed)
    ensures
        pow_spec(base, exponent).raw >= 0,
{
    lemma_exp_positive(exponent.times(ln_spec(base)));
}

fn unit_clamped(v: Fixed) -> (r: Fixed)
    ensures
        r == unit_clamp(v),
        0 <= r.raw <= ONE_RAW,
{
    if v.raw < 0 {
        Fixed { raw: 0 }
    } else if v.raw > ONE_RAW {
        Fixed { raw: ONE_RAW }
    } else {
        v
    }
}

fn sum_alternating(y2: Fixed, first: Fixed, start: i64, steps: u32) -> (r: Fixed)
    requires
        1 <= start <= 2,
        steps <= 16,
    ensures
        r == alternating_series(y2, first, first, start as int, steps as nat, true),
{
    let mut term = first;
    let mut acc = first;
    let mut n: i64 = start;
    let mut left: u32 = steps;
    let mut subtract = true;
    while left > 0
        invariant
            left <= steps <= 16,
            n == start + 2 * (steps - left),
            1 <= start <= 2,
            alternating_series(y2, first, first, start as int, steps as nat, true)
                == alternating_series(y2, term, acc, n as int, left as nat, subtract),
        decreases left,
    {
        assert(0 < n * (n + 1) <= 34 * 35) by (nonlinear_arith)
            requires
                1 <= n <= 34,
        ;
        let d: i64 = n * (n + 1);
        let next = term.times(y2).scaled(Fixed { raw: 1 }, Fixed { raw: d });
        if subtract {
            acc = acc.minus(next);
        } else {
            acc = acc.plus(next);
        }
        term = next;
        n = n + 2;
        left = left - 1;
        subtract = !subtract;
    }
    acc
}

/// Sine and cosine of `x` radians.
pub fn sin_cos(x: Fixed) -> (r: (Fixed, Fixed))
    ensures
        r == sin_cos_spec(x),
        -ONE_RAW <= r.0.raw <= ONE_RAW,
        -ONE_RAW <= r.1.raw <= ONE_RAW,
{
    let q = floor_div(x.raw as i128, TWO_PI_RAW as i128);
    proof {
        lemma_fundamental_div_mod(x.raw as int, TWO_PI_RAW as int);
        lemma_mod_bound(x.raw as int, TWO_PI_RAW as int);
    }
    assert(q * TWO_PI_RAW == x.raw - (x.raw as int) % (TWO_PI_RAW as int)) by (nonlinear_arith)
        requires
            x.raw as int == (TWO_PI_RAW as int) * q + (x.raw as int) % (TWO_PI_RAW as int),
    ;
    let r: i64 = ((x.raw as i128) - q * (TWO_PI_RAW as i128)) as i64;
    let one = Fixed { raw: ONE_RAW };
    if r <= HALF_PI_RAW {
        let y = Fixed { raw: r };
        let s = unit_clamped(sum_alternating(y.times(y), y, 2, TRIG_STEPS));
        let c = unit_clamped(sum_alternating(y.times(y), one, 1, TRIG_STEPS));
        (s, c)
    } else if r <= PI_RAW {
        let y = Fixed { raw: PI_RAW - r };
        let s = unit_clamped(sum_alternating(y.times(y), y, 2, TRIG_STEPS));
        let c = unit_clamped(sum_alternating(y.times(y), one, 1, TRIG_STEPS));
        (s, c.negated())
    } else if r <= PI_RAW + HALF_PI_RAW {
        let y = Fixed { raw: r - PI_RAW };
        let s = unit_clamped(sum_alternating(y.times(y), y, 2, TRIG_STEPS));
        let c = unit_clamped(sum_alternating(y.times(y), one, 1, TRIG_STEPS));
        (s.negated(), c.negated())
    } else {
        let y = Fixed { raw: TWO_PI_RAW - r };
        let s = unit_clamped(sum_alternating(y.times(y), y, 2, TRIG_STEPS));
        let c = unit_clamped(sum_alternating(y.times(y), one, 1, TRIG_STEPS));
        (s.negated(), c)
    }
}

/// The exponential of `x`.
pub fn exp(x: Fixed) -> (r: Fixed)
    ensures
        r == exp_spec(x),
{
    if x.raw >= EXP_CEILING_RAW {
        return Fixed { raw: MAX_RAW };
    }
    if x.raw <= EXP_FLOOR_RAW {
        return Fixed { raw: 0 };
    }
    let k: i64 = floor_div(x.raw as i128, LN2_RAW as i128) as i64;
    let rest = Fixed { raw: x.raw - k * LN2_RAW };
    let one = Fixed { raw: ONE_RAW };
    let mut term = one;
    let mut acc = one;
    let mut j: i64 = 1;
    let mut left: u32 = EXP_STEPS;
    while left > 0
        invariant
            left <= EXP_STEPS,
            j == 1 + (EXP_STEPS - left),
            exp_series(rest, one, one, 1, EXP_STEPS as nat) == exp_series(
                rest,
                term,
                acc,
                j as int,
                left as nat,
            ),
        decreases left,
    {
        let next = term.times(rest).scaled(Fixed { raw: 1 }, Fixed { raw: j });
        acc = acc.plus(next);
        term = next;
        j = j + 1;
        left = left - 1;
    }
    let e = acc;
    let mut value = e;
    if k >= 0 {
        let mut left: i64 = k;
        while left > 0
            invariant
                0 <= left <= k,
                doubled(e, k as nat) == doubled(value, left as nat),
            decreases left,
        {
            value = value.plus(value);
            left = left - 1;
        }
    } else {
        let mut left: i64 = -k;
        while left > 0
            invariant
                0 <= left <= -k,
                halved(e, (-k) as nat) == halved(value, left as nat),
            decreases left,
        {
            value = Fixed { raw: floor_div(value.raw as i128, 2) as i64 };
            left = left - 1;
        }
    }
    value
}

/// The natural logarithm of `x`; the most negative number for `x <= 0`.
pub fn ln(x: Fixed) -> (r: Fixed)
    ensures
        r == ln_spec(x),
{
    if x.raw <= 0 {
        return Fixed { raw: MIN_RAW };
    }
    let mut m: i64 = x.raw;
    let mut k: i64 = 0;
    let mut left: u32 = NORMALIZE_STEPS;
    while left > 0 && m >= 2 * ONE_RAW
        invariant
            left <= NORMALIZE_STEPS,
            0 < m,
            k == NORMALIZE_STEPS - left,
            halvings(x.raw as int, 0, NORMALIZE_STEPS as nat) == halvings(
                m as int,
                k as int,
                left as nat,
            ),
        decreases left,
    {
        m = m / 2;
        k = k + 1;
        left = left - 1;
    }
    let ghost k1 = k;
    let ghost m1 = m;
    let mut left: u32 = NORMALIZE_STEPS;
    while left > 0 && m < ONE_RAW
        invariant
            left <= NORMALIZE_STEPS,
            0 < m,
            k == k1 - (NORMALIZE_STEPS - left),
            0 <= k1 <= NORMALIZE_STEPS,
            doublings(m1 as int, k1 as int, NORMALIZE_STEPS as nat) == doublings(
                m as int,
                k as int,
                left as nat,
            ),
        decreases left,
    {
        m = 2 * m;
        k = k - 1;
        left = left - 1;
    }
    let mantissa = Fixed { raw: m };
    let one = Fixed { raw: ONE_RAW };
    let z = mantissa.minus(one).over(mantissa.plus(one));
    let z2 = z.times(z);
    let mut power = z;
    let mut acc = z;
    let mut n: i64 = 3;
    let mut left: u32 = LN_STEPS;
    while left > 0
        invariant
            left <= LN_STEPS,
            n == 3 + 2 * (LN_STEPS - left),
            atanh_series(z2, z, z, 3, LN_STEPS as nat) == atanh_series(
                z2,
                power,
                acc,
                n as int,
                left as nat,
            ),
        decreases left,
    {
        let p = power.times(z2);
        acc = acc.plus(p.scaled(Fixed { raw: 1 }, Fixed { raw: n }));
        power = p;
        n = n + 2;
        left = left - 1;
    }
    let s = acc;
    let shift = Fixed { raw: clamp_wide((k as i128) * (LN2_RAW as i128)) };
    s.plus(s).plus(shift)
}

/// `base` raised to `exponent`.
pub fn pow(base: Fixed, exponent: Fixed) -> (r: Fixed)
    ensures
        r == pow_spec(base, exponent),
{
    if base.raw <= 0 {
        Fixed { raw: 0 }
    } else if exponent.raw == 0 || base.raw == ONE_RAW {
        Fixed { raw: ONE_RAW }
    } else if exponent.raw == ONE_RAW {
        base
    } else {
        exp(exponent.times(ln(base)))
    }
}

} // verus!
