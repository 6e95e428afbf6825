//! Two-dimensional vectors over the fixed-point scale.

use vstd::prelude::*;

verus! {

use crate::scalar::{
    fadd, fmul, fneg, fsub, isqrt, isqrt_u128, lemma_isqrt_bounds, lemma_mul_in_i64_square,
    sat64, Scalar,
};

/// Dot product of two vectors, on raw component values.
pub open spec fn fdot(ax: int, ay: int, bx: int, by: int) -> int {
    fadd(fmul(ax, bx), fmul(ay, by))
}

/// Euclidean norm of a vector, on raw component values.
pub open spec fn fmag(x: int, y: int) -> int {
    sat64(isqrt((x * x + y * y) as nat) as int)
}

/// A vector's norm is zero exactly when both components are zero.
pub proof fn lemma_fmag_zero(x: int, y: int)
    requires
        i64::MIN as int <= x <= i64::MAX as int,
        i64::MIN as int <= y <= i64::MAX as int,
    ensures
        (fmag(x, y) == 0) <==> (x == 0 && y == 0),
{
    lemma_isqrt_bounds((x * x + y * y) as nat);
    if x == 0 && y == 0 {
        assert(x * x + y * y == 0) by (nonlinear_arith)
            requires
                x == 0,
                y == 0,
        ;
    } else {
        assert(x * x + y * y >= 1) by (nonlinear_arith)
            requires
                !(x == 0 && y == 0),
        ;
        let r = isqrt((x * x + y * y) as nat);
        if r == 0 {
            assert((r + 1) * (r + 1) == 1) by (nonlinear_arith)
                requires
                    r == 0,
            ;
        }
    }
}

/// A 2-D vector; each component is a fixed-point [`Scalar`].
#[derive(Clone, Copy, PartialEq, Eq, Structural, Debug)]
pub struct V2 {
    pub x: Scalar,
    pub y: Scalar,
}

impl V2 {
    /// Builds a vector from its two components.
    pub fn new(x: Scalar, y: Scalar) -> (r: V2)
        ensures
            r.x == x,
            r.y == y,
    {
        V2 { x, y }
    }

    /// The zero vector.
    pub fn zeros() -> (r: V2)
        ensures
            r.x.raw == 0,
            r.y.raw == 0,
    {
        V2 { x: Scalar { raw: 0 }, y: Scalar { raw: 0 } }
    }

    /// Componentwise saturating addition.
    pub fn plus(self, rhs: V2) -> (r: V2)
        ensures
            r.x.raw == fadd(self.x.raw as int, rhs.x.raw as int),
            r.y.raw == fadd(self.y.raw as int, rhs.y.raw as int),
    {
        V2 { x: self.x.plus(rhs.x), y: self.y.plus(rhs.y) }
    }

    /// Componentwise saturating subtraction.
    pub fn minus(self, rhs: V2) -> (r: V2)
        ensures
            r.x.raw == fsub(self.x.raw as int, rhs.x.raw as int),
            r.y.raw == fsub(self.y.raw as int, rhs.y.raw as int),
    {
        V2 { x: self.x.minus(rhs.x), y: self.y.minus(rhs.y) }
    }

    /// Componentwise saturating negation.
    pub fn neg(self) -> (r: V2)
        ensures
            r.x.raw == fneg(self.x.raw as int),
            r.y.raw == fneg(self.y.raw as int),
    {
        V2 { x: self.x.neg(), y: self.y.neg() }
    }

    /// Scales both components by a scalar factor.
    pub fn scale(self, s: Scalar) -> (r: V2)
        ensures
            r.x.raw == fmul(self.x.raw as int, s.raw as int),
            r.y.raw == fmul(self.y.raw as int, s.raw as int),
    {
        V2 { x: self.x.times(s), y: self.y.times(s) }
    }

    /// Dot product with another vector.
    pub fn dot(self, rhs: V2) -> (r: Scalar)
        ensures
            r.raw == fdot(self.x.raw as int, self.y.raw as int, rhs.x.raw as int,
                rhs.y.raw as int),
    {
        self.x.times(rhs.x).plus(self.y.times(rhs.y))
    }

    /// Whether both components are exactly zero.
    pub fn is_zero(self) -> (r: bool)
        ensures
            r == (self.x.raw == 0 && self.y.raw == 0),
    {
        self.x.raw == 0 && self.y.raw == 0
    }

    /// Euclidean norm, saturating at the representation bound.
    pub fn magnitude(self) -> (r: Scalar)
        ensures
            r.raw == fmag(self.x.raw as int, self.y.raw as int),
            r.raw >= 0,
    {
        proof {
            lemma_mul_in_i64_square(self.x.raw as int, self.x.raw as int);
            lemma_mul_in_i64_square(self.y.raw as int, self.y.raw as int);
            assert(self.x.raw as int * self.x.raw as int >= 0) by (nonlinear_arith);
            assert(self.y.raw as int * self.y.raw as int >= 0) by (nonlinear_arith);
        }
        let xx: u128 = ((self.x.raw as i128) * (self.x.raw as i128)) as u128;
        let yy: u128 = ((self.y.raw as i128) * (self.y.raw as i128)) as u128;
        let s: u128 = xx + yy;
        if s >= 0x4000_0000_0000_0000_0000_0000_0000_0000u128 {
            proof {
                lemma_isqrt_bounds(s as nat);
                let r = isqrt(s as nat);
                if r < 0x8000_0000_0000_0000nat {
                    assert((r + 1) * (r + 1) <= 0x8000_0000_0000_0000
                        * 0x8000_0000_0000_0000) by (nonlinear_arith)
                        requires
                            r + 1 <= 0x8000_0000_0000_0000nat,
                    ;
                    assert(0x8000_0000_0000_0000 * 0x8000_0000_0000_0000
                        == 0x4000_0000_0000_0000_0000_0000_0000_0000) by (nonlinear_arith);
                }
            }
            Scalar { raw: i64::MAX }
        } else {
            let r = isqrt_u128(s);
            proof {
                if r as nat >= 0x8000_0000_0000_0000nat {
                    assert((r as nat) * (r as nat) >= 0x8000_0000_0000_0000
                        * 0x8000_0000_0000_0000) by (nonlinear_arith)
                        requires
                            r as nat >= 0x8000_0000_0000_0000nat,
                    ;
                    assert(0x8000_0000_0000_0000 * 0x8000_0000_0000_0000
                        == 0x4000_0000_0000_0000_0000_0000_0000_0000) by (nonlinear_arith);
                }
            }
            Scalar { raw: r as i64 }
        }
    }
}

} // verus!
