//! Fixed-point transcendental kernels.
//!
//! The neural controller needs the exponential (for its sigmoid-family
//! activations) and the cell locomotion needs the sine and cosine of a
//! heading angle.  Each kernel is a polynomial approximation over the
//! fixed-point scale whose result is pinned exactly, term by term, by
//! the spec functions below; the exponent is clamped to a range where
//! every intermediate fits the representation.

use vstd::prelude::*;

verus! {

use crate::scalar::{
    abs_i, fadd, fdiv, fdiv_int, fmul, fneg, fsub, sat64, sc, tdiv, Scalar, PI_RAW, SCALE,
    TWO_PI_RAW,
};
use vstd::arithmetic::div_mod::{
    lemma_div_is_ordered, lemma_div_is_ordered_by_denominator, lemma_div_multiples_vanish,
    lemma_div_pos_is_pos,
};

/// Raw value of half pi, the quarter-turn used for range reduction.
pub const HALF_PI_RAW: i64 = 1_570_796_327;

/// The exponent magnitude beyond which the exponential is clamped.
pub const EXP_CLAMP_RAW: i64 = 21 * SCALE;

/// Raw value of `e^n` for whole exponents `0 <= n <= 21`.
pub open spec fn exp_table(n: int) -> int {
    if n <= 0 {
        1_000_000_000
    } else if n == 1 {
        2_718_281_828
    } else if n == 2 {
        7_389_056_099
    } else if n == 3 {
        20_085_536_923
    } else if n == 4 {
        54_598_150_033
    } else if n == 5 {
        148_413_159_103
    } else if n == 6 {
        403_428_793_493
    } else if n == 7 {
        1_096_633_158_428
    } else if n == 8 {
        2_980_957_987_042
    } else if n == 9 {
        8_103_083_927_575
    } else if n == 10 {
        22_026_465_794_807
    } else if n == 11 {
        59_874_141_715_198
    } else if n == 12 {
        162_754_791_419_004
    } else if n == 13 {
        442_413_392_008_920
    } else if n == 14 {
        1_202_604_284_164_777
    } else if n == 15 {
        3_269_017_372_472_110
    } else if n == 16 {
        8_886_110_520_507_872
    } else if n == 17 {
        24_154_952_753_575_300
    } else if n == 18 {
        65_659_969_137_330_512
    } else if n == 19 {
        178_482_300_963_187_232
    } else if n == 20 {
        485_165_195_409_790_272
    } else {
        1_318_815_734_483_214_592
    }
}

/// Horner evaluation of the Taylor series of `e^f` for `0 <= f < 1`,
/// after `j` of its thirteen steps.
pub open spec fn exp_frac_steps(f: int, j: nat) -> int
    decreases j,
{
    if j == 0 {
        sc()
    } else {
        fadd(sc(), fdiv_int(fmul(f, exp_frac_steps(f, (j - 1) as nat)), 14 - j))
    }
}

/// Raw exponential of a nonnegative raw exponent `x <= 21`.
pub open spec fn exp_pos_raw(x: int) -> int {
    fmul(exp_table(x / sc()), exp_frac_steps(x % sc(), 13))
}

/// Raw exponential with the exponent clamped into `[-21, 21]` units.
pub open spec fn fexp(x: int) -> int {
    if x >= 0 {
        exp_pos_raw(if x > EXP_CLAMP_RAW as int {
            EXP_CLAMP_RAW as int
        } else {
            x
        })
    } else {
        fdiv(
            sc(),
            exp_pos_raw(
                if fneg(x) > EXP_CLAMP_RAW as int {
                    EXP_CLAMP_RAW as int
                } else {
                    fneg(x)
                },
            ),
        )
    }
}

/// The logistic function `1 / (1 + e^-x)` on raw values.
pub open spec fn fsigmoid(x: int) -> int {
    fdiv(sc(), fadd(sc(), fexp(fneg(x))))
}

/// The hyperbolic tangent `(e^x - e^-x) / (e^x + e^-x)` on raw values.
pub open spec fn ftanh(x: int) -> int {
    fdiv(fsub(fexp(x), fexp(fneg(x))), fadd(fexp(x), fexp(fneg(x))))
}

/// The rectifier `max(0, x)` on raw values.
pub open spec fn frelu(x: int) -> int {
    if x >= 0 {
        x
    } else {
        0
    }
}

/// The swish function `x / (1 + e^-x)` on raw values.
pub open spec fn fswish(x: int) -> int {
    fmul(x, fsigmoid(x))
}

/// Divisor of the `j`-th Horner step of the sine series.
pub open spec fn sin_div(j: nat) -> int {
    if j == 1 {
        210
    } else if j == 2 {
        156
    } else if j == 3 {
        110
    } else if j == 4 {
        72
    } else if j == 5 {
        42
    } else if j == 6 {
        20
    } else {
        6
    }
}

/// Horner evaluation of the Taylor series of `sin(t)/t` in `u2 = t*t`,
/// after `j` of its seven steps.
pub open spec fn sin_horner(u2: int, j: nat) -> int
    decreases j,
{
    if j == 0 {
        sc()
    } else {
        fsub(sc(), fdiv_int(fmul(u2, sin_horner(u2, (j - 1) as nat)), sin_div(j)))
    }
}

/// Raw sine of an angle already reduced into `[-pi/2, pi/2]`.
pub open spec fn sin_quarter(t: int) -> int {
    fmul(t, sin_horner(fmul(t, t), 7))
}

/// Raw sine of an arbitrary raw angle, by quadrant reduction.
pub open spec fn fsin(x: int) -> int {
    let t = x % (TWO_PI_RAW as int);
    if t < HALF_PI_RAW as int {
        sin_quarter(t)
    } else if t < PI_RAW as int + HALF_PI_RAW as int {
        sin_quarter(fsub(PI_RAW as int, t))
    } else {
        sin_quarter(fsub(t, TWO_PI_RAW as int))
    }
}

/// Raw cosine, as the sine of the angle advanced a quarter turn.
pub open spec fn fcos(x: int) -> int {
    fsin(fadd(x, HALF_PI_RAW as int))
}

/// A product of nonnegative scalars is nonnegative.
pub proof fn lemma_fmul_nonneg(a: int, b: int)
    requires
        a >= 0,
        b >= 0,
    ensures
        fmul(a, b) >= 0,
{
    assert(a * b >= 0) by (nonlinear_arith)
        requires
            a >= 0,
            b >= 0,
    ;
    lemma_div_pos_is_pos(a * b, sc());
}

/// Multiplying a scalar of at least one unit keeps at least the other factor.
pub proof fn lemma_fmul_ge_unit(a: int, b: int)
    requires
        a >= sc(),
        sc() <= b <= i64::MAX as int,
    ensures
        fmul(a, b) >= sc(),
{
    assert(sc() * b <= a * b) by (nonlinear_arith)
        requires
            sc() <= a,
            b >= 0,
    ;
    lemma_div_is_ordered(sc() * b, a * b, sc());
    lemma_div_multiples_vanish(b, sc());
}

pub proof fn lemma_exp_frac_ge_unit(f: int, j: nat)
    requires
        f >= 0,
        j <= 13,
    ensures
        sc() <= exp_frac_steps(f, j) <= i64::MAX as int,
    decreases j,
{
    if j == 0 {
    } else {
        lemma_exp_frac_ge_unit(f, (j - 1) as nat);
        lemma_fmul_nonneg(f, exp_frac_steps(f, (j - 1) as nat));
        lemma_div_pos_is_pos(fmul(f, exp_frac_steps(f, (j - 1) as nat)), 14 - j as int);
    }
}

pub proof fn lemma_exp_pos_ge_unit(x: int)
    requires
        x >= 0,
    ensures
        sc() <= exp_pos_raw(x) <= i64::MAX as int,
{
    lemma_div_pos_is_pos(x, sc());
    vstd::arithmetic::div_mod::lemma_mod_division_less_than_divisor(x, sc());
    lemma_exp_frac_ge_unit(x % sc(), 13);
    lemma_fmul_ge_unit(exp_table(x / sc()), exp_frac_steps(x % sc(), 13));
}

pub proof fn lemma_fexp_nonneg(x: int)
    requires
        i64::MIN as int <= x <= i64::MAX as int,
    ensures
        0 <= fexp(x) <= i64::MAX as int,
        x >= 0 ==> fexp(x) >= sc(),
{
    if x >= 0 {
        let c = if x > EXP_CLAMP_RAW as int {
            EXP_CLAMP_RAW as int
        } else {
            x
        };
        lemma_exp_pos_ge_unit(c);
    } else {
        let c = if fneg(x) > EXP_CLAMP_RAW as int {
            EXP_CLAMP_RAW as int
        } else {
            fneg(x)
        };
        lemma_exp_pos_ge_unit(c);
        let e = exp_pos_raw(c);
        assert(sc() * sc() >= 0) by (nonlinear_arith);
        lemma_div_pos_is_pos(sc() * sc(), e);
    }
}

impl Scalar {
    /// Looks up `e^n` for a whole exponent.
    fn exp_whole(n: u64) -> (r: Scalar)
        requires
            n <= 21,
        ensures
            r.raw == exp_table(n as int),
    {
        if n == 0 {
            Scalar { raw: 1_000_000_000 }
        } else if n == 1 {
            Scalar { raw: 2_718_281_828 }
        } else if n == 2 {
            Scalar { raw: 7_389_056_099 }
        } else if n == 3 {
            Scalar { raw: 20_085_536_923 }
        } else if n == 4 {
            Scalar { raw: 54_598_150_033 }
        } else if n == 5 {
            Scalar { raw: 148_413_159_103 }
        } else if n == 6 {
            Scalar { raw: 403_428_793_493 }
        } else if n == 7 {
            Scalar { raw: 1_096_633_158_428 }
        } else if n == 8 {
            Scalar { raw: 2_980_957_987_042 }
        } else if n == 9 {
            Scalar { raw: 8_103_083_927_575 }
        } else if n == 10 {
            Scalar { raw: 22_026_465_794_807 }
        } else if n == 11 {
            Scalar { raw: 59_874_141_715_198 }
        } else if n == 12 {
            Scalar { raw: 162_754_791_419_004 }
        } else if n == 13 {
            Scalar { raw: 442_413_392_008_920 }
        } else if n == 14 {
            Scalar { raw: 1_202_604_284_164_777 }
        } else if n == 15 {
            Scalar { raw: 3_269_017_372_472_110 }
        } else if n == 16 {
            Scalar { raw: 8_886_110_520_507_872 }
        } else if n == 17 {
            Scalar { raw: 24_154_952_753_575_300 }
        } else if n == 18 {
            Scalar { raw: 65_659_969_137_330_512 }
        } else if n == 19 {
            Scalar { raw: 178_482_300_963_187_232 }
        } else if n == 20 {
            Scalar { raw: 485_165_195_409_790_272 }
        } else {
            Scalar { raw: 1_318_815_734_483_214_592 }
        }
    }

    /// Exponential of a nonnegative scalar of at most 21 units.
    fn exp_pos(self) -> (r: Scalar)
        requires
            0 <= self.raw <= EXP_CLAMP_RAW,
        ensures
            r.raw == exp_pos_raw(self.raw as int),
    {
        let n: u64 = (self.raw as u64) / (SCALE as u64);
        let f = Scalar { raw: ((self.raw as u64) % (SCALE as u64)) as i64 };
        proof {
            lemma_div_is_ordered(self.raw as int, 21 * sc(), sc());
            lemma_div_multiples_vanish(21, sc());
            vstd::arithmetic::div_mod::lemma_mod_division_less_than_divisor(
                self.raw as int,
                sc(),
            );
        }
        let whole = Scalar::exp_whole(n);
        let mut acc = Scalar { raw: SCALE };
        let mut j: i64 = 1;
        while j <= 13
            invariant
                1 <= j <= 14,
                0 <= f.raw < SCALE,
                acc.raw as int == exp_frac_steps(f.raw as int, (j - 1) as nat),
            decreases 14 - j,
        {
            acc = Scalar { raw: SCALE }.plus(f.times(acc).over_int(14 - j));
            proof {
                assert(acc.raw as int == exp_frac_steps(f.raw as int, j as nat));
            }
            j = j + 1;
        }
        whole.times(acc)
    }

    /// Exponential, with the exponent clamped into `[-21, 21]` units.
    pub fn exp(self) -> (r: Scalar)
        ensures
            r.raw == fexp(self.raw as int),
    {
        if self.raw >= 0 {
            let c = if self.raw > EXP_CLAMP_RAW {
                Scalar { raw: EXP_CLAMP_RAW }
            } else {
                self
            };
            c.exp_pos()
        } else {
            let m = self.neg();
            let c = if m.raw > EXP_CLAMP_RAW {
                Scalar { raw: EXP_CLAMP_RAW }
            } else {
                m
            };
            let e = c.exp_pos();
            proof {
                lemma_exp_pos_ge_unit(c.raw as int);
            }
            Scalar { raw: SCALE }.over(e)
        }
    }

    /// The logistic function of the scalar.
    pub fn sigmoid(self) -> (r: Scalar)
        ensures
            r.raw == fsigmoid(self.raw as int),
    {
        let e = self.neg().exp();
        proof {
            lemma_fexp_nonneg(fneg(self.raw as int));
        }
        let d = Scalar { raw: SCALE }.plus(e);
        Scalar { raw: SCALE }.over(d)
    }

    /// The hyperbolic tangent of the scalar.
    pub fn tanh(self) -> (r: Scalar)
        ensures
            r.raw == ftanh(self.raw as int),
    {
        let a = self.exp();
        let b = self.neg().exp();
        proof {
            lemma_fexp_nonneg(self.raw as int);
            lemma_fexp_nonneg(fneg(self.raw as int));
        }
        a.minus(b).over(a.plus(b))
    }

    /// The rectifier of the scalar.
    pub fn relu(self) -> (r: Scalar)
        ensures
            r.raw == frelu(self.raw as int),
    {
        if self.raw >= 0 {
            self
        } else {
            Scalar { raw: 0 }
        }
    }

    /// The swish function of the scalar.
    pub fn swish(self) -> (r: Scalar)
        ensures
            r.raw == fswish(self.raw as int),
    {
        self.times(self.sigmoid())
    }

    /// Sine over a quarter period, by the Horner-evaluated series.
    fn sin_reduced(self) -> (r: Scalar)
        requires
            -(HALF_PI_RAW as int) <= self.raw <= HALF_PI_RAW as int,
        ensures
            r.raw == sin_quarter(self.raw as int),
    {
        let u2 = self.times(self);
        let mut acc = Scalar { raw: SCALE };
        let mut j: i64 = 1;
        while j <= 7
            invariant
                1 <= j <= 8,
                u2.raw == fmul(self.raw as int, self.raw as int),
                acc.raw as int == sin_horner(u2.raw as int, (j - 1) as nat),
            decreases 8 - j,
        {
            let d: i64 = if j == 1 {
                210
            } else if j == 2 {
                156
            } else if j == 3 {
                110
            } else if j == 4 {
                72
            } else if j == 5 {
                42
            } else if j == 6 {
                20
            } else {
                6
            };
            acc = Scalar { raw: SCALE }.minus(u2.times(acc).over_int(d));
            proof {
                assert(d as int == sin_div(j as nat));
                assert(acc.raw as int == sin_horner(u2.raw as int, j as nat));
            }
            j = j + 1;
        }
        self.times(acc)
    }

    /// Sine of the scalar taken as an angle in radians.
    pub fn sin(self) -> (r: Scalar)
        ensures
            r.raw == fsin(self.raw as int),
    {
        let t = self.wrap_mod(Scalar { raw: TWO_PI_RAW });
        if t.raw < HALF_PI_RAW {
            t.sin_reduced()
        } else if t.raw < PI_RAW + HALF_PI_RAW {
            Scalar { raw: PI_RAW }.minus(t).sin_reduced()
        } else {
            t.minus(Scalar { raw: TWO_PI_RAW }).sin_reduced()
        }
    }

    /// Cosine of the scalar taken as an angle in radians.
    pub fn cos(self) -> (r: Scalar)
        ensures
            r.raw == fcos(self.raw as int),
    {
        self.plus(Scalar { raw: HALF_PI_RAW }).sin()
    }
}


/// Saturation never grows a magnitude.
pub proof fn lemma_sat_abs(x: int)
    ensures
        abs_i(sat64(x)) <= abs_i(x),
{
}

/// The magnitude of a truncating quotient is the quotient of magnitudes.
pub proof fn lemma_tdiv_abs(a: int, b: int)
    requires
        b > 0,
    ensures
        abs_i(tdiv(a, b)) == abs_i(a) / b,
{
    if a >= 0 {
        lemma_div_pos_is_pos(a, b);
    } else {
        lemma_div_pos_is_pos(-a, b);
    }
}

/// A fixed-point product of bounded factors is bounded.
pub proof fn lemma_fmul_abs_le(a: int, b: int, c: int)
    requires
        abs_i(a * b) <= c * sc(),
        c >= 0,
    ensures
        abs_i(fmul(a, b)) <= c,
{
    lemma_tdiv_abs(a * b, sc());
    lemma_div_is_ordered(abs_i(a * b), c * sc(), sc());
    lemma_div_multiples_vanish(c, sc());
    assert(c * sc() == sc() * c) by (nonlinear_arith);
    lemma_sat_abs(tdiv(a * b, sc()));
}

/// The Horner kernel of the sine stays inside `[0, 1]` for arguments up
/// to three square units.
pub proof fn lemma_sin_horner_bounded(u2: int, j: nat)
    requires
        0 <= u2 <= 3 * sc(),
        j <= 7,
    ensures
        0 <= sin_horner(u2, j) <= sc(),
    decreases j,
{
    if j > 0 {
        lemma_sin_horner_bounded(u2, (j - 1) as nat);
        let h = sin_horner(u2, (j - 1) as nat);
        assert(abs_i(u2 * h) <= 3 * sc() * sc()) by (nonlinear_arith)
            requires
                0 <= u2 <= 3 * sc(),
                0 <= h <= sc(),
        ;
        assert(3 * sc() * sc() == (3 * sc()) * sc()) by (nonlinear_arith);
        lemma_fmul_abs_le(u2, h, 3 * sc());
        let t = fmul(u2, h);
        assert(t >= 0) by {
            lemma_fmul_nonneg(u2, h);
        }
        let d = sin_div(j);
        assert(d >= 6);
        lemma_tdiv_abs(t, d);
        lemma_div_is_ordered(t, 3 * sc(), d);
        lemma_div_is_ordered_by_denominator(3 * sc(), 6, d);
        assert(3 * sc() / 6 <= sc()) by {
            assert(3 * sc() == 6 * (sc() / 2)) by (nonlinear_arith);
            lemma_div_multiples_vanish(sc() / 2, 6);
            assert(6 * (sc() / 2) == (sc() / 2) * 6) by (nonlinear_arith);
        }
        lemma_div_pos_is_pos(t, d);
    }
}

/// The quarter-period sine is no larger in magnitude than its argument.
pub proof fn lemma_sin_quarter_bounded(t: int)
    requires
        -(HALF_PI_RAW as int) <= t <= HALF_PI_RAW as int,
    ensures
        abs_i(sin_quarter(t)) <= 2 * sc(),
{
    let u2 = fmul(t, t);
    assert(abs_i(t * t) <= 3 * sc() * sc()) by (nonlinear_arith)
        requires
            -(HALF_PI_RAW as int) <= t <= HALF_PI_RAW as int,
    ;
    assert(3 * sc() * sc() == (3 * sc()) * sc()) by (nonlinear_arith);
    lemma_fmul_abs_le(t, t, 3 * sc());
    assert(u2 >= 0) by {
        assert(t * t >= 0) by (nonlinear_arith);
        lemma_fmul_nonneg_sq(t);
    }
    lemma_sin_horner_bounded(u2, 7);
    let h = sin_horner(u2, 7);
    assert(abs_i(t * h) <= 2 * sc() * sc()) by (nonlinear_arith)
        requires
            -(HALF_PI_RAW as int) <= t <= HALF_PI_RAW as int,
            0 <= h <= sc(),
            HALF_PI_RAW < 2 * SCALE,
    ;
    assert(2 * sc() * sc() == (2 * sc()) * sc()) by (nonlinear_arith);
    lemma_fmul_abs_le(t, h, 2 * sc());
}

/// A square is nonnegative in the fixed-point product too.
proof fn lemma_fmul_nonneg_sq(t: int)
    ensures
        fmul(t, t) >= 0,
{
    assert(t * t >= 0) by (nonlinear_arith);
    lemma_div_pos_is_pos(t * t, sc());
}

/// The sine of any angle has magnitude at most two units.
pub proof fn lemma_fsin_bounded(x: int)
    ensures
        abs_i(fsin(x)) <= 2 * sc(),
{
    let t = x % (TWO_PI_RAW as int);
    vstd::arithmetic::div_mod::lemma_mod_division_less_than_divisor(x, TWO_PI_RAW as int);
    if t < HALF_PI_RAW as int {
        lemma_sin_quarter_bounded(t);
    } else if t < PI_RAW as int + HALF_PI_RAW as int {
        lemma_sin_quarter_bounded(fsub(PI_RAW as int, t));
    } else {
        lemma_sin_quarter_bounded(fsub(t, TWO_PI_RAW as int));
    }
}

/// The cosine of any angle has magnitude at most two units.
pub proof fn lemma_fcos_bounded(x: int)
    ensures
        abs_i(fcos(x)) <= 2 * sc(),
{
    lemma_fsin_bounded(fadd(x, HALF_PI_RAW as int));
}
} // verus!
