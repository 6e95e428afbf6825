//! Fixed-point scalar arithmetic.
//!
//! Every physical quantity in the engine is a [`Scalar`]: a signed
//! fixed-point number holding `raw / SCALE` units.  All operations
//! saturate at the representation bounds, so they are total and their
//! results are pinned exactly by the spec functions below.

use vstd::prelude::*;

verus! {

use vstd::arithmetic::div_mod::{
    lemma_div_nonincreasing, lemma_div_pos_is_pos, lemma_fundamental_div_mod,
    lemma_fundamental_div_mod_converse_mod,
};

/// Number of raw steps in one whole unit.
pub const SCALE: i64 = 1_000_000_000;

/// Raw value of the circle constant pi.
pub const PI_RAW: i64 = 3_141_592_654;

/// Raw value of two pi, kept exactly twice `PI_RAW`.
pub const TWO_PI_RAW: i64 = 2 * PI_RAW;

/// The scale as a mathematical integer.
pub open spec fn sc() -> int {
    SCALE as int
}

/// Absolute value of an integer.
pub open spec fn abs_i(a: int) -> int {
    if a >= 0 {
        a
    } else {
        -a
    }
}

/// Saturation of an integer into the `i64` range.
pub open spec fn sat64(x: int) -> int {
    if x > i64::MAX as int {
        i64::MAX as int
    } else if x < i64::MIN as int {
        i64::MIN as int
    } else {
        x
    }
}

/// Truncating division (rounding toward zero), meaningful for `b != 0`.
pub open spec fn tdiv(a: int, b: int) -> int {
    if (a >= 0) == (b >= 0) {
        abs_i(a) / abs_i(b)
    } else {
        -(abs_i(a) / abs_i(b))
    }
}

/// Saturating fixed-point addition, on raw values.
pub open spec fn fadd(a: int, b: int) -> int {
    sat64(a + b)
}

/// Saturating fixed-point subtraction, on raw values.
pub open spec fn fsub(a: int, b: int) -> int {
    sat64(a - b)
}

/// Saturating fixed-point multiplication, on raw values.
pub open spec fn fmul(a: int, b: int) -> int {
    sat64(tdiv(a * b, sc()))
}

/// Saturating fixed-point division, on raw values; meaningful for `b != 0`.
pub open spec fn fdiv(a: int, b: int) -> int {
    sat64(tdiv(a * sc(), b))
}

/// Saturating negation of a raw value.
pub open spec fn fneg(a: int) -> int {
    sat64(-a)
}

/// Saturating truncating division of a raw value by a plain integer;
/// meaningful for `k != 0`.
pub open spec fn fdiv_int(a: int, k: int) -> int {
    sat64(tdiv(a, k))
}

/// The smaller of two integers.
pub open spec fn min_i(a: int, b: int) -> int {
    if a <= b {
        a
    } else {
        b
    }
}

/// The larger of two integers.
pub open spec fn max_i(a: int, b: int) -> int {
    if a >= b {
        a
    } else {
        b
    }
}

/// Integer square root by unary recursion; used only in specifications.
pub open spec fn isqrt(n: nat) -> nat
    decreases n,
{
    if n == 0 {
        0
    } else {
        let r = isqrt((n - 1) as nat);
        if (r + 1) * (r + 1) <= n {
            r + 1
        } else {
            r
        }
    }
}

/// Fixed-point square root of a nonnegative raw value.
pub open spec fn fsqrt(a: int) -> int {
    isqrt((a * sc()) as nat) as int
}

/// A signed fixed-point number worth `raw / SCALE` units.
#[derive(Clone, Copy, PartialEq, Eq, Structural, Debug)]
pub struct Scalar {
    pub raw: i64,
}

/// Types that expose the circle constants of the fixed-point scale.
pub trait RealConst {
    fn pi() -> (r: Self) where Self: core::marker::Sized;

    fn two_pi() -> (r: Self) where Self: core::marker::Sized;
}

impl RealConst for Scalar {
    fn pi() -> (r: Scalar)
        ensures
            r.raw == PI_RAW,
    {
        Scalar { raw: PI_RAW }
    }

    fn two_pi() -> (r: Scalar)
        ensures
            r.raw == TWO_PI_RAW,
    {
        Scalar { raw: TWO_PI_RAW }
    }
}

pub proof fn lemma_isqrt_bounds(n: nat)
    ensures
        isqrt(n) * isqrt(n) <= n,
        n < (isqrt(n) + 1) * (isqrt(n) + 1),
    decreases n,
{
    if n == 0 {
        assert(isqrt(n) == 0);
        assert(isqrt(n) * isqrt(n) <= n);
        assert((isqrt(n) + 1) * (isqrt(n) + 1) == 1) by (nonlinear_arith)
            requires
                isqrt(n) == 0,
        ;
        assert(n < (isqrt(n) + 1) * (isqrt(n) + 1));
    } else {
        let m = (n - 1) as nat;
        lemma_isqrt_bounds(m);
        let r = isqrt(m);
        assert(r * r <= m);
        assert(m < (r + 1) * (r + 1));
        if (r + 1) * (r + 1) <= n {
            assert(isqrt(n) == r + 1);
            assert(n <= (r + 1) * (r + 1));
            assert((r + 1) * (r + 1) < (r + 2) * (r + 2)) by (nonlinear_arith);
            assert(isqrt(n) * isqrt(n) <= n);
            assert(n < (isqrt(n) + 1) * (isqrt(n) + 1));
        } else {
            assert(isqrt(n) == r);
            assert(isqrt(n) * isqrt(n) <= n);
            assert(n < (isqrt(n) + 1) * (isqrt(n) + 1));
        }
    }
}

pub proof fn lemma_isqrt_unique(n: nat, r: nat)
    requires
        r * r <= n,
        n < (r + 1) * (r + 1),
    ensures
        r == isqrt(n),
{
    lemma_isqrt_bounds(n);
    let s = isqrt(n);
    if r < s {
        assert((r + 1) * (r + 1) <= s * s) by (nonlinear_arith)
            requires
                r + 1 <= s,
        ;
    }
    if s < r {
        assert((s + 1) * (s + 1) <= r * r) by (nonlinear_arith)
            requires
                s + 1 <= r,
        ;
    }
}


/// Fixed-point multiplication by a nonnegative factor is monotone.
pub proof fn lemma_fmul_mono(a1: int, a2: int, b: int)
    requires
        0 <= a1 <= a2,
        0 <= b,
    ensures
        0 <= fmul(a1, b) <= fmul(a2, b),
{
    assert(0 <= a1 * b <= a2 * b) by (nonlinear_arith)
        requires
            0 <= a1 <= a2,
            0 <= b,
    ;
    lemma_div_pos_is_pos(a1 * b, sc());
    vstd::arithmetic::div_mod::lemma_div_is_ordered(a1 * b, a2 * b, sc());
}

/// Saturating narrowing of a wide intermediate into the `i64` range.
fn sat_narrow(x: i128) -> (r: i64)
    ensures
        r as int == sat64(x as int),
{
    if x > i64::MAX as i128 {
        i64::MAX
    } else if x < i64::MIN as i128 {
        i64::MIN
    } else {
        x as i64
    }
}

/// Truncating division on wide intermediates, via unsigned division.
fn tdiv_i128(a: i128, b: i128) -> (r: i128)
    requires
        b > 0,
        a > i128::MIN,
    ensures
        r as int == tdiv(a as int, b as int),
        abs_i(r as int) <= abs_i(a as int),
{
    if a >= 0 {
        let q: u128 = (a as u128) / (b as u128);
        proof {
            lemma_div_nonincreasing(a as int, b as int);
            lemma_div_pos_is_pos(a as int, b as int);
        }
        q as i128
    } else {
        let m: u128 = ((-a) as u128) / (b as u128);
        proof {
            lemma_div_nonincreasing(-(a as int), b as int);
            lemma_div_pos_is_pos(-(a as int), b as int);
        }
        -(m as i128)
    }
}

pub(crate) proof fn lemma_mul_in_i64_square(a: int, b: int)
    requires
        i64::MIN as int <= a <= i64::MAX as int,
        i64::MIN as int <= b <= i64::MAX as int,
    ensures
        -0x4000_0000_0000_0000_0000_0000_0000_0000 < a * b
            < 0x4000_0000_0000_0000_0000_0000_0000_0001,
{
    assert(-0x4000_0000_0000_0000_0000_0000_0000_0000 < a * b
        < 0x4000_0000_0000_0000_0000_0000_0000_0001) by (nonlinear_arith)
        requires
            -0x8000_0000_0000_0000 <= a <= 0x7fff_ffff_ffff_ffff,
            -0x8000_0000_0000_0000 <= b <= 0x7fff_ffff_ffff_ffff,
    ;
}

/// Integer square root of a wide intermediate, by binary search.
pub(crate) fn isqrt_u128(n: u128) -> (r: u128)
    requires
        n < 0x4000_0000_0000_0000_0000_0000_0000_0000,
    ensures
        r as nat == isqrt(n as nat),
        r * r <= n,
{
    let mut lo: u128 = 0;
    let mut hi: u128 = 0x8000_0000_0000_0000;
    assert(hi * hi == 0x4000_0000_0000_0000_0000_0000_0000_0000) by (nonlinear_arith)
        requires
            hi == 0x8000_0000_0000_0000u128,
    ;
    while lo + 1 < hi
        invariant
            lo < hi,
            hi <= 0x8000_0000_0000_0000,
            lo * lo <= n,
            n < hi * hi,
        decreases hi - lo,
    {
        let mid = lo + (hi - lo) / 2;
        assert(lo < mid < hi);
        assert(mid * mid <= 0x4000_0000_0000_0000_0000_0000_0000_0000) by (nonlinear_arith)
            requires
                0 <= mid <= 0x8000_0000_0000_0000u128,
        ;
        if mid * mid <= n {
            lo = mid;
        } else {
            hi = mid;
        }
    }
    proof {
        lemma_isqrt_unique(n as nat, lo as nat);
    }
    lo
}

impl Scalar {
    /// The scalar worth zero units.
    pub fn zero() -> (r: Scalar)
        ensures
            r.raw == 0,
    {
        Scalar { raw: 0 }
    }

    /// The scalar worth one unit.
    pub fn one() -> (r: Scalar)
        ensures
            r.raw == SCALE,
    {
        Scalar { raw: SCALE }
    }

    /// Builds a scalar directly from its raw fixed-point value.
    pub fn from_raw(raw: i64) -> (r: Scalar)
        ensures
            r.raw == raw,
    {
        Scalar { raw }
    }

    /// Builds the scalar worth `units` whole units.
    pub fn from_units(units: i32) -> (r: Scalar)
        ensures
            r.raw == units as int * sc(),
    {
        proof {
            assert(-0x8000_0000 * 1_000_000_000 <= units as int * 1_000_000_000
                <= 0x7fff_ffff * 1_000_000_000) by (nonlinear_arith)
                requires
                    -0x8000_0000 <= units as int <= 0x7fff_ffff,
            ;
        }
        Scalar { raw: (units as i64) * SCALE }
    }

    /// Saturating addition.
    pub fn plus(self, rhs: Scalar) -> (r: Scalar)
        ensures
            r.raw == fadd(self.raw as int, rhs.raw as int),
    {
        let s: i128 = self.raw as i128 + rhs.raw as i128;
        Scalar { raw: sat_narrow(s) }
    }

    /// Saturating subtraction.
    pub fn minus(self, rhs: Scalar) -> (r: Scalar)
        ensures
            r.raw == fsub(self.raw as int, rhs.raw as int),
    {
        let s: i128 = self.raw as i128 - rhs.raw as i128;
        Scalar { raw: sat_narrow(s) }
    }

    /// Saturating fixed-point multiplication.
    pub fn times(self, rhs: Scalar) -> (r: Scalar)
        ensures
            r.raw == fmul(self.raw as int, rhs.raw as int),
    {
        proof {
            lemma_mul_in_i64_square(self.raw as int, rhs.raw as int);
        }
        let p: i128 = (self.raw as i128) * (rhs.raw as i128);
        let q = tdiv_i128(p, SCALE as i128);
        Scalar { raw: sat_narrow(q) }
    }

    /// Saturating fixed-point division.
    pub fn over(self, rhs: Scalar) -> (r: Scalar)
        requires
            rhs.raw != 0,
        ensures
            r.raw == fdiv(self.raw as int, rhs.raw as int),
    {
        proof {
            lemma_mul_in_i64_square(self.raw as int, SCALE as int);
        }
        let p: i128 = (self.raw as i128) * (SCALE as i128);
        if rhs.raw > 0 {
            let q = tdiv_i128(p, rhs.raw as i128);
            Scalar { raw: sat_narrow(q) }
        } else {
            let q = tdiv_i128(p, -(rhs.raw as i128));
            proof {
                assert(tdiv(p as int, rhs.raw as int) == -tdiv(p as int, -(rhs.raw as int)));
            }
            Scalar { raw: sat_narrow(-q) }
        }
    }

    /// Saturating truncating division by a plain integer divisor.
    pub fn over_int(self, k: i64) -> (r: Scalar)
        requires
            k != 0,
        ensures
            r.raw == fdiv_int(self.raw as int, k as int),
    {
        let a: i128 = self.raw as i128;
        if k > 0 {
            let q = tdiv_i128(a, k as i128);
            Scalar { raw: sat_narrow(q) }
        } else {
            let q = tdiv_i128(a, -(k as i128));
            proof {
                assert(tdiv(a as int, k as int) == -tdiv(a as int, -(k as int)));
            }
            Scalar { raw: sat_narrow(-q) }
        }
    }

    /// Saturating negation.
    pub fn neg(self) -> (r: Scalar)
        ensures
            r.raw == fneg(self.raw as int),
    {
        if self.raw == i64::MIN {
            Scalar { raw: i64::MAX }
        } else {
            Scalar { raw: -self.raw }
        }
    }

    /// Absolute value, saturating at the upper bound.
    pub fn abs(self) -> (r: Scalar)
        ensures
            r.raw == sat64(abs_i(self.raw as int)),
    {
        if self.raw < 0 {
            self.neg()
        } else {
            self
        }
    }

    /// The smaller of two scalars.
    pub fn min(self, rhs: Scalar) -> (r: Scalar)
        ensures
            r.raw == if self.raw <= rhs.raw {
                self.raw
            } else {
                rhs.raw
            },
    {
        if self.raw <= rhs.raw {
            self
        } else {
            rhs
        }
    }

    /// The larger of two scalars.
    pub fn max(self, rhs: Scalar) -> (r: Scalar)
        ensures
            r.raw == if self.raw >= rhs.raw {
                self.raw
            } else {
                rhs.raw
            },
    {
        if self.raw >= rhs.raw {
            self
        } else {
            rhs
        }
    }

    /// Clamps the scalar into the closed interval `[lo, hi]`.
    pub fn clamp(self, lo: Scalar, hi: Scalar) -> (r: Scalar)
        requires
            lo.raw <= hi.raw,
        ensures
            r.raw == if self.raw < lo.raw {
                lo.raw
            } else if self.raw > hi.raw {
                hi.raw
            } else {
                self.raw
            },
    {
        if self.raw < lo.raw {
            lo
        } else if self.raw > hi.raw {
            hi
        } else {
            self
        }
    }

    /// Comparison: less than or equal.
    pub fn le(self, rhs: Scalar) -> (r: bool)
        ensures
            r == (self.raw <= rhs.raw),
    {
        self.raw <= rhs.raw
    }

    /// Comparison: strictly less than.
    pub fn lt(self, rhs: Scalar) -> (r: bool)
        ensures
            r == (self.raw < rhs.raw),
    {
        self.raw < rhs.raw
    }

    /// Comparison: greater than or equal.
    pub fn ge(self, rhs: Scalar) -> (r: bool)
        ensures
            r == (self.raw >= rhs.raw),
    {
        self.raw >= rhs.raw
    }

    /// Comparison: strictly greater than.
    pub fn gt(self, rhs: Scalar) -> (r: bool)
        ensures
            r == (self.raw > rhs.raw),
    {
        self.raw > rhs.raw
    }

    /// Fixed-point square root of a nonnegative scalar.
    pub fn sqrt(self) -> (r: Scalar)
        requires
            self.raw >= 0,
        ensures
            r.raw == fsqrt(self.raw as int),
            r.raw >= 0,
    {
        proof {
            lemma_mul_in_i64_square(self.raw as int, SCALE as int);
        }
        let n: u128 = (self.raw as u128) * (SCALE as u128);
        let r = isqrt_u128(n);
        proof {
            lemma_isqrt_bounds(n as nat);
            if r as nat >= 0x8000_0000_0000_0000nat {
                assert((r as nat) * (r as nat) >= 0x8000_0000_0000_0000
                    * 0x8000_0000_0000_0000) by (nonlinear_arith)
                    requires
                        r as nat >= 0x8000_0000_0000_0000nat,
                ;
            }
        }
        Scalar { raw: r as i64 }
    }

    /// Euclidean remainder: the representative of `self` modulo `m` in `[0, m)`.
    pub fn wrap_mod(self, m: Scalar) -> (r: Scalar)
        requires
            m.raw > 0,
        ensures
            r.raw == (self.raw as int) % (m.raw as int),
            0 <= r.raw < m.raw,
    {
        if self.raw >= 0 {
            let k = (self.raw as u64) % (m.raw as u64);
            Scalar { raw: k as i64 }
        } else {
            let neg = if self.raw == i64::MIN {
                // `|i64::MIN|` does not fit in an i64, so lift through u64.
                0x8000_0000_0000_0000u64
            } else {
                (-self.raw) as u64
            };
            let k = neg % (m.raw as u64);
            proof {
                let a = self.raw as int;
                let mm = m.raw as int;
                let q = (neg as int) / mm;
                lemma_fundamental_div_mod(neg as int, mm);
                assert(neg as int == mm * q + k);
                assert(a == -(neg as int));
                if k == 0 {
                    assert((-q) * mm + 0 == -(mm * q)) by (nonlinear_arith);
                    lemma_fundamental_div_mod_converse_mod(a, mm, -q, 0);
                } else {
                    assert((-q - 1) * mm + (mm - k) == -(mm * q) - k) by (nonlinear_arith);
                    lemma_fundamental_div_mod_converse_mod(a, mm, -q - 1, mm - k);
                }
            }
            if k == 0 {
                Scalar { raw: 0 }
            } else {
                Scalar { raw: m.raw - (k as i64) }
            }
        }
    }
}

} // verus!
