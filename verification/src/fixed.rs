//! Decimal fixed-point numbers with saturating arithmetic.
//!
//! Every quantity of the growth model (lengths, angles, weights, light,
//! resource) is a `Fixed`: a signed count of billionths. All operations are
//! total, round toward negative infinity and saturate at `MAX_RAW` and
//! `MIN_RAW`, so a result is the same on every machine.
use vstd::arithmetic::div_mod::{lemma_fundamental_div_mod, lemma_fundamental_div_mod_converse};
use vstd::prelude::*;

verus! {

/// Raw units in one whole.
pub const ONE_RAW: i64 = 1_000_000_000;

/// Largest magnitude that an operation produces.
pub const MAX_RAW: i64 = 0x7fff_ffff_ffff_ffff;

/// Raw units in minus one.
pub const MINUS_ONE_RAW: i64 = -1_000_000_000;

/// The negative of `MAX_RAW`.
pub const MIN_RAW: i64 = -0x7fff_ffff_ffff_ffff;

/// `v` brought into `[-MAX_RAW, MAX_RAW]`.
pub open spec fn clamp(v: int) -> int {
    if v > MAX_RAW {
        MAX_RAW as int
    } else if v < -MAX_RAW {
        -(MAX_RAW as int)
    } else {
        v
    }
}

/// `num / den` rounded toward negative infinity, for a non-zero `den` of
/// either sign.
pub open spec fn floor_ratio(num: int, den: int) -> int {
    if den > 0 {
        num / den
    } else {
        (-num) / (-den)
    }
}

/// `r` is the integer square root of `n`.
pub open spec fn is_sqrt(r: int, n: int) -> bool {
    0 <= r && r * r <= n < (r + 1) * (r + 1)
}

/// The integer square root of a non-negative `n`.
pub open spec fn isqrt(n: int) -> int {
    choose|r: int| is_sqrt(r, n)
}

/// A number has at most one integer square root.
pub proof fn lemma_isqrt_unique(r: int, n: int)
    requires
        is_sqrt(r, n),
    ensures
        isqrt(n) == r,
{
    let s = isqrt(n);
    assert(is_sqrt(s, n));
    if s < r {
        assert((s + 1) * (s + 1) <= r * r) by (nonlinear_arith)
            requires
                0 <= s,
                s + 1 <= r,
        ;
    }
    if r < s {
        assert((r + 1) * (r + 1) <= s * s) by (nonlinear_arith)
            requires
                0 <= r,
                r + 1 <= s,
        ;
    }
}

/// Every non-negative number has an integer square root.
pub proof fn lemma_isqrt_exists(n: int)
    requires
        0 <= n,
    ensures
        is_sqrt(isqrt(n), n),
    decreases n,
{
    if n == 0 {
        assert(is_sqrt(0, 0));
    } else {
        lemma_isqrt_exists(n - 1);
        let r = isqrt(n - 1);
        if (r + 1) * (r + 1) <= n {
            assert((r + 1) * (r + 1) == n);
            assert(n < (r + 2) * (r + 2)) by (nonlinear_arith)
                requires
                    (r + 1) * (r + 1) == n,
                    0 <= r,
            ;
            assert(is_sqrt(r + 1, n));
        } else {
            assert(is_sqrt(r, n));
        }
    }
}

/// `num / den` for a positive `den`, rounded toward negative infinity.
pub fn floor_div(num: i128, den: i128) -> (q: i128)
    requires
        den > 0,
        num > i128::MIN,
    ensures
        q == num / den,
{
    if num >= 0 {
        num / den
    } else {
        let m: i128 = -num;
        let qm: i128 = m / den;
        let rm: i128 = m % den;
        proof {
            lemma_fundamental_div_mod(m as int, den as int);
            assert(0 <= qm) by (nonlinear_arith)
                requires
                    m as int == den * qm + rm,
                    0 <= rm < den,
                    m > 0,
                    den > 0,
            ;
            assert(qm <= m) by (nonlinear_arith)
                requires
                    m as int == den * qm + rm,
                    0 <= rm,
                    qm >= 0,
                    den >= 1,
            ;
        }
        if rm == 0 {
            proof {
                assert(num as int == (-qm) * den + 0) by (nonlinear_arith)
                    requires
                        m as int == den * qm + rm,
                        rm == 0,
                        num == -m,
                ;
                lemma_fundamental_div_mod_converse(num as int, den as int, -qm, 0);
            }
            -qm
        } else {
            proof {
                assert(num as int == (-qm - 1) * den + (den - rm)) by (nonlinear_arith)
                    requires
                        m as int == den * qm + rm,
                        num == -m,
                ;
                lemma_fundamental_div_mod_converse(
                    num as int,
                    den as int,
                    -qm - 1,
                    den - rm,
                );
            }
            -qm - 1
        }
    }
}

/// `v` brought into the range of raw values.
pub fn clamp_wide(v: i128) -> (r: i64)
    ensures
        r == clamp(v as int),
{
    if v > MAX_RAW as i128 {
        MAX_RAW
    } else if v < -(MAX_RAW as i128) {
        -MAX_RAW
    } else {
        v as i64
    }
}

/// The integer square root of `n`, found by bisection.
pub fn isqrt_wide(n: u128) -> (r: u64)
    ensures
        r == isqrt(n as int),
        is_sqrt(r as int, n as int),
{
    let mut lo: u64 = 0;
    let mut hi: u64 = u64::MAX;
    assert((hi + 1) * (hi + 1) == 0x1_0000_0000_0000_0000_0000_0000_0000_0000) by (nonlinear_arith)
        requires
            hi == 0xffff_ffff_ffff_ffff,
    ;
    while lo < hi
        invariant
            lo <= hi,
            lo * lo <= n,
            n < (hi + 1) * (hi + 1),
        decreases hi - lo,
    {
        let half: u64 = (hi - lo) / 2;
        let mid: u64 = lo + half + (hi - lo) % 2;
        assert(lo < mid <= hi);
        assert(mid * mid <= 0xffff_ffff_ffff_ffff * 0xffff_ffff_ffff_ffff) by (nonlinear_arith)
            requires
                0 <= mid <= 0xffff_ffff_ffff_ffff,
        ;
        let square: u128 = (mid as u128) * (mid as u128);
        if square <= n {
            lo = mid;
        } else {
            hi = mid - 1;
        }
    }
    proof {
        lemma_isqrt_unique(lo as int, n as int);
    }
    lo
}

/// A decimal fixed-point number: `raw` billionths.
#[derive(Clone, Copy, Debug, PartialEq, Eq, Structural)]
pub struct Fixed {
    pub raw: i64,
}

impl Fixed {
    /// The number that `raw` billionths stand for.
    pub open spec fn spec_from_raw(raw: i64) -> Fixed {
        Fixed { raw }
    }

    /// The number that `raw` billionths stand for.
    #[verifier::when_used_as_spec(spec_from_raw)]
    pub fn from_raw(raw: i64) -> (r: Fixed)
        ensures
            r == Self::spec_from_raw(raw),
    {
        Fixed { raw }
    }

    /// `n` wholes: `n * ONE_RAW`, saturated.
    pub open spec fn spec_from_int(n: i64) -> Fixed {
        Fixed { raw: clamp(n * ONE_RAW) as i64 }
    }

    /// The whole number `n`, saturated.
    #[verifier::when_used_as_spec(spec_from_int)]
    pub fn from_int(n: i64) -> (r: Fixed)
        ensures
            r == Self::spec_from_int(n),
    {
        assert(-0x8000_0000_0000_0000 * 1_000_000_000 <= n * ONE_RAW <= 0x8000_0000_0000_0000
            * 1_000_000_000) by (nonlinear_arith)
            requires
                -0x8000_0000_0000_0000 <= n < 0x8000_0000_0000_0000,
                ONE_RAW == 1_000_000_000,
        ;
        Fixed { raw: clamp_wide((n as i128) * (ONE_RAW as i128)) }
    }

    /// The number zero.
    pub open spec fn spec_zero() -> Fixed {
        Fixed { raw: 0 }
    }

    /// The number zero.
    #[verifier::when_used_as_spec(spec_zero)]
    pub fn zero() -> (r: Fixed)
        ensures
            r == Self::spec_zero(),
    {
        Fixed { raw: 0 }
    }

    /// The number one.
    pub open spec fn spec_one() -> Fixed {
        Fixed { raw: ONE_RAW }
    }

    /// The number one.
    #[verifier::when_used_as_spec(spec_one)]
    pub fn one() -> (r: Fixed)
        ensures
            r == Self::spec_one(),
    {
        Fixed { raw: ONE_RAW }
    }

    /// `self + rhs`, saturated.
    pub open spec fn spec_plus(self, rhs: Fixed) -> Fixed {
        Fixed { raw: clamp(self.raw + rhs.raw) as i64 }
    }

    /// The saturated sum.
    #[verifier::when_used_as_spec(spec_plus)]
    pub fn plus(self, rhs: Fixed) -> (r: Fixed)
        ensures
            r == self.spec_plus(rhs),
    {
        Fixed { raw: clamp_wide((self.raw as i128) + (rhs.raw as i128)) }
    }

    /// `self - rhs`, saturated.
    pub open spec fn spec_minus(self, rhs: Fixed) -> Fixed {
        Fixed { raw: clamp(self.raw - rhs.raw) as i64 }
    }

    /// The saturated difference.
    #[verifier::when_used_as_spec(spec_minus)]
    pub fn minus(self, rhs: Fixed) -> (r: Fixed)
        ensures
            r == self.spec_minus(rhs),
    {
        Fixed { raw: clamp_wide((self.raw as i128) - (rhs.raw as i128)) }
    }

    /// `-self`, saturated.
    pub open spec fn spec_negated(self) -> Fixed {
        Fixed { raw: clamp(-self.raw) as i64 }
    }

    /// The saturated negation.
    #[verifier::when_used_as_spec(spec_negated)]
    pub fn negated(self) -> (r: Fixed)
        ensures
            r == self.spec_negated(),
    {
        Fixed { raw: clamp_wide(-(self.raw as i128)) }
    }

    /// `self * rhs`: the product of the raw values over `ONE_RAW`, rounded down
    /// and saturated.
    pub open spec fn spec_times(self, rhs: Fixed) -> Fixed {
        Fixed { raw: clamp((self.raw * rhs.raw) / (ONE_RAW as int)) as i64 }
    }

    /// The product, rounded down and saturated.
    #[verifier::when_used_as_spec(spec_times)]
    pub fn times(self, rhs: Fixed) -> (r: Fixed)
        ensures
            r == self.spec_times(rhs),
    {
        let a = self.raw;
        let b = rhs.raw;
        assert(-0x8000_0000_0000_0000 * 0x8000_0000_0000_0000 <= a * b <= 0x8000_0000_0000_0000
            * 0x8000_0000_0000_0000) by (nonlinear_arith)
            requires
                -0x8000_0000_0000_0000 <= a < 0x8000_0000_0000_0000,
                -0x8000_0000_0000_0000 <= b < 0x8000_0000_0000_0000,
        ;
        let wide: i128 = (a as i128) * (b as i128);
        Fixed { raw: clamp_wide(floor_div(wide, ONE_RAW as i128)) }
    }

    /// `self * num / den`: the product of the raw values of `self` and `num`
    /// over the raw value of `den`, rounded down and saturated.
    pub open spec fn spec_scaled(self, num: Fixed, den: Fixed) -> Fixed {
        Fixed { raw: clamp(floor_ratio(self.raw * num.raw, den.raw as int)) as i64 }
    }

    /// `self * num / den` with a single rounding, saturated.
    #[verifier::when_used_as_spec(spec_scaled)]
    pub fn scaled(self, num: Fixed, den: Fixed) -> (r: Fixed)
        requires
            den.raw != 0,
        ensures
            r == self.spec_scaled(num, den),
    {
        let a = self.raw;
        let b = num.raw;
        assert(-0x8000_0000_0000_0000 * 0x8000_0000_0000_0000 <= a * b <= 0x8000_0000_0000_0000
            * 0x8000_0000_0000_0000) by (nonlinear_arith)
            requires
                -0x8000_0000_0000_0000 <= a < 0x8000_0000_0000_0000,
                -0x8000_0000_0000_0000 <= b < 0x8000_0000_0000_0000,
        ;
        let wide: i128 = (a as i128) * (b as i128);
        if den.raw > 0 {
            Fixed { raw: clamp_wide(floor_div(wide, den.raw as i128)) }
        } else {
            Fixed { raw: clamp_wide(floor_div(-wide, -(den.raw as i128))) }
        }
    }

    /// `self / rhs`, rounded down and saturated.
    pub open spec fn spec_over(self, rhs: Fixed) -> Fixed {
        self.spec_scaled(Fixed { raw: ONE_RAW }, rhs)
    }

    /// The quotient, rounded down and saturated.
    #[verifier::when_used_as_spec(spec_over)]
    pub fn over(self, rhs: Fixed) -> (r: Fixed)
        requires
            rhs.raw != 0,
        ensures
            r == self.spec_over(rhs),
    {
        self.scaled(Fixed { raw: ONE_RAW }, rhs)
    }

    /// The square root of `self`: the integer square root of
    /// `raw * ONE_RAW`; zero for a negative number.
    pub open spec fn spec_sqrt(self) -> Fixed {
        if self.raw <= 0 {
            Fixed { raw: 0 }
        } else {
            Fixed { raw: isqrt(self.raw * ONE_RAW) as i64 }
        }
    }

    /// The square root, rounded down; zero for a negative number.
    #[verifier::when_used_as_spec(spec_sqrt)]
    pub fn sqrt(self) -> (r: Fixed)
        ensures
            r == self.spec_sqrt(),
            self.raw > 0 ==> is_sqrt(r.raw as int, self.raw * ONE_RAW),
    {
        if self.raw <= 0 {
            Fixed { raw: 0 }
        } else {
            let a = self.raw;
            assert(0 < a * ONE_RAW <= 0x7fff_ffff_ffff_ffff * 1_000_000_000) by (nonlinear_arith)
                requires
                    0 < a <= 0x7fff_ffff_ffff_ffff,
                    ONE_RAW == 1_000_000_000,
            ;
            let wide: u128 = (a as u128) * (ONE_RAW as u128);
            let root: u64 = isqrt_wide(wide);
            assert(root < 0x4000_0000_0000_0000) by (nonlinear_arith)
                requires
                    root * root <= wide,
                    wide <= 0x7fff_ffff_ffff_ffff * 1_000_000_000,
                    root >= 0,
            ;
            Fixed { raw: root as i64 }
        }
    }

    /// `self` without its sign, saturated.
    pub open spec fn spec_abs(self) -> Fixed {
        if self.raw < 0 {
            self.spec_negated()
        } else {
            self
        }
    }

    /// The magnitude, saturated.
    #[verifier::when_used_as_spec(spec_abs)]
    pub fn abs(self) -> (r: Fixed)
        ensures
            r == self.spec_abs(),
    {
        if self.raw < 0 {
            self.negated()
        } else {
            self
        }
    }

    /// The largest whole number not above `self`.
    pub open spec fn spec_floor(self) -> int {
        (self.raw as int) / (ONE_RAW as int)
    }

    /// The largest whole number not above `self`.
    pub fn floor(self) -> (n: i64)
        ensures
            n == self.spec_floor(),
    {
        let q = floor_div(self.raw as i128, ONE_RAW as i128);
        assert(-0x8000_0000_0000_0000 <= q <= 0x7fff_ffff_ffff_ffff) by (nonlinear_arith)
            requires
                q == self.raw / 1_000_000_000,
                -0x8000_0000_0000_0000 <= self.raw <= 0x7fff_ffff_ffff_ffff,
        ;
        q as i64
    }
}

} // verus!
