//! Two-component fixed-point vectors.
//!
//! Every operation is total over bounded vectors: scalar division by zero and
//! normalization of the zero vector yield the zero vector rather than failing.

use vstd::prelude::*;
use crate::fx;
use crate::fx::{fadd, fsub, fmul, fdiv, in_range, sqrt_f, sat};

verus! {

#[derive(Debug, Default, Clone, Copy, PartialEq, Eq, Structural)]
pub struct Vector2 {
    pub x: i128,
    pub y: i128,
}

/// Both components lie in the representable scalar range.
pub open spec fn v_bounded(a: Vector2) -> bool {
    in_range(a.x as int) && in_range(a.y as int)
}

pub open spec fn v_add(a: Vector2, b: Vector2) -> Vector2 {
    Vector2 { x: fadd(a.x as int, b.x as int) as i128, y: fadd(a.y as int, b.y as int) as i128 }
}

pub open spec fn v_sub(a: Vector2, b: Vector2) -> Vector2 {
    Vector2 { x: fsub(a.x as int, b.x as int) as i128, y: fsub(a.y as int, b.y as int) as i128 }
}

pub open spec fn v_mul(a: Vector2, f: int) -> Vector2 {
    Vector2 { x: fmul(a.x as int, f) as i128, y: fmul(a.y as int, f) as i128 }
}

pub open spec fn v_div(a: Vector2, f: int) -> Vector2 {
    Vector2 { x: fdiv(a.x as int, f) as i128, y: fdiv(a.y as int, f) as i128 }
}

pub open spec fn v_neg(a: Vector2) -> Vector2 {
    Vector2 { x: (-a.x) as i128, y: (-a.y) as i128 }
}

/// Length of a bounded vector; exact floor square root of the raw square sum.
pub open spec fn v_len(a: Vector2) -> int {
    sat(sqrt_f(a.x as int * a.x as int + a.y as int * a.y as int))
}

/// Fixed-point squared length.
pub open spec fn v_len_sq(a: Vector2) -> int {
    fadd(fmul(a.x as int, a.x as int), fmul(a.y as int, a.y as int))
}

pub open spec fn v_dot(a: Vector2, b: Vector2) -> int {
    fadd(fmul(a.x as int, b.x as int), fmul(a.y as int, b.y as int))
}

pub open spec fn v_cross(a: Vector2, b: Vector2) -> int {
    fsub(fmul(a.x as int, b.y as int), fmul(a.y as int, b.x as int))
}

impl Vector2 {
    pub fn new(x: i128, y: i128) -> (r: Self)
        ensures
            r == (Vector2 { x, y }),
    {
        Vector2 { x, y }
    }

    pub fn zero() -> (r: Self)
        ensures
            r == (Vector2 { x: 0i128, y: 0i128 }),
    {
        Vector2 { x: 0, y: 0 }
    }

    pub fn set_zero(&mut self)
        ensures
            *final(self) == (Vector2 { x: 0i128, y: 0i128 }),
    {
        self.x = 0;
        self.y = 0;
    }

    pub fn set(&mut self, x: i128, y: i128)
        ensures
            *final(self) == (Vector2 { x, y }),
    {
        self.x = x;
        self.y = y;
    }

    pub fn add(&self, v: Vector2) -> (r: Self)
        requires
            v_bounded(*self),
            v_bounded(v),
        ensures
            r == v_add(*self, v),
    {
        Vector2 { x: fx::fx_add(self.x, v.x), y: fx::fx_add(self.y, v.y) }
    }

    pub fn sub(&self, v: Vector2) -> (r: Self)
        requires
            v_bounded(*self),
            v_bounded(v),
        ensures
            r == v_sub(*self, v),
    {
        Vector2 { x: fx::fx_sub(self.x, v.x), y: fx::fx_sub(self.y, v.y) }
    }

    pub fn mul(&self, f: i128) -> (r: Self)
        requires
            v_bounded(*self),
            in_range(f as int),
        ensures
            r == v_mul(*self, f as int),
    {
        Vector2 { x: fx::fx_mul(self.x, f), y: fx::fx_mul(self.y, f) }
    }

    /// A zero divisor yields the zero vector, never a fault.
    pub fn div(&self, f: i128) -> (r: Self)
        requires
            v_bounded(*self),
            in_range(f as int),
        ensures
            r == v_div(*self, f as int),
    {
        if f == 0 {
            proof {
                fx::lemma_quot_zero(0);
                assert(fdiv(self.x as int, 0) == 0);
                assert(fdiv(self.y as int, 0) == 0);
            }
            return Self::zero();
        }
        Vector2 { x: fx::fx_div(self.x, f), y: fx::fx_div(self.y, f) }
    }

    pub fn set_add(&mut self, v: Vector2)
        requires
            v_bounded(*old(self)),
            v_bounded(v),
        ensures
            *final(self) == v_add(*old(self), v),
    {
        self.x = fx::fx_add(self.x, v.x);
        self.y = fx::fx_add(self.y, v.y);
    }

    pub fn set_sub(&mut self, v: Vector2)
        requires
            v_bounded(*old(self)),
            v_bounded(v),
        ensures
            *final(self) == v_sub(*old(self), v),
    {
        self.x = fx::fx_sub(self.x, v.x);
        self.y = fx::fx_sub(self.y, v.y);
    }

    pub fn set_mul(&mut self, f: i128)
        requires
            v_bounded(*old(self)),
            in_range(f as int),
        ensures
            *final(self) == v_mul(*old(self), f as int),
    {
        self.x = fx::fx_mul(self.x, f);
        self.y = fx::fx_mul(self.y, f);
    }

    pub fn set_div(&mut self, f: i128)
        requires
            v_bounded(*old(self)),
            in_range(f as int),
        ensures
            *final(self) == v_div(*old(self), f as int),
    {
        if f == 0 {
            proof {
                fx::lemma_quot_zero(0);
            }
            self.set_zero();
        } else {
            self.x = fx::fx_div(self.x, f);
            self.y = fx::fx_div(self.y, f);
        }
    }

    pub fn len(&self) -> (r: i128)
        requires
            v_bounded(*self),
        ensures
            r == v_len(*self),
            r >= 0,
    {
        fx::sat_i(sqrt_square_sum(self.x, self.y))
    }

    pub fn len_sq(&self) -> (r: i128)
        requires
            v_bounded(*self),
        ensures
            r == v_len_sq(*self),
    {
        fx::fx_add(fx::fx_mul(self.x, self.x), fx::fx_mul(self.y, self.y))
    }

    /// Normalization by a zero length yields the zero vector.
    pub fn normalized(&self) -> (r: Self)
        requires
            v_bounded(*self),
        ensures
            r == v_div(*self, v_len(*self)),
    {
        let l = self.len();
        self.div(l)
    }

    pub fn neg(&self) -> (r: Self)
        requires
            v_bounded(*self),
        ensures
            r == v_neg(*self),
    {
        Vector2 { x: -self.x, y: -self.y }
    }

    /// Rotation by an angle given through its fixed-point cosine and sine.
    pub fn rot(&self, c: i128, s: i128) -> (r: Self)
        requires
            v_bounded(*self),
            in_range(c as int),
            in_range(s as int),
        ensures
            r.x as int == fsub(fmul(c as int, self.x as int), fmul(s as int, self.y as int)),
            r.y as int == fadd(fmul(s as int, self.x as int), fmul(c as int, self.y as int)),
    {
        Vector2 {
            x: fx::fx_sub(fx::fx_mul(c, self.x), fx::fx_mul(s, self.y)),
            y: fx::fx_add(fx::fx_mul(s, self.x), fx::fx_mul(c, self.y)),
        }
    }

    /// Inverse rotation by an angle given through its fixed-point cosine and sine.
    pub fn rot_rev(&self, c: i128, s: i128) -> (r: Self)
        requires
            v_bounded(*self),
            in_range(c as int),
            in_range(s as int),
        ensures
            r.x as int == fadd(fmul(c as int, self.x as int), fmul(s as int, self.y as int)),
            r.y as int == fsub(fmul(c as int, self.y as int), fmul(s as int, self.x as int)),
    {
        Vector2 {
            x: fx::fx_add(fx::fx_mul(c, self.x), fx::fx_mul(s, self.y)),
            y: fx::fx_sub(fx::fx_mul(c, self.y), fx::fx_mul(s, self.x)),
        }
    }
}

/// Swapping the operands of a difference negates it exactly.
pub proof fn lemma_v_sub_antisym(a: Vector2, b: Vector2)
    ensures
        v_sub(b, a) == v_neg(v_sub(a, b)),
{
    fx::lemma_sat_neg(a.x - b.x);
    fx::lemma_sat_neg(a.y - b.y);
}

/// Scaling a negated vector negates the scaled vector exactly.
pub proof fn lemma_v_mul_neg(a: Vector2, f: int)
    requires
        v_bounded(a),
    ensures
        v_mul(v_neg(a), f) == v_neg(v_mul(a, f)),
{
    fx::lemma_fmul_neg(a.x as int, f);
    fx::lemma_fmul_neg(a.y as int, f);
}

/// Negation preserves both length measures.
pub proof fn lemma_v_len_neg(a: Vector2)
    requires
        v_bounded(a),
    ensures
        v_len(v_neg(a)) == v_len(a),
        v_len_sq(v_neg(a)) == v_len_sq(a),
{
    assert((-a.x as int) * (-a.x as int) == a.x as int * a.x as int) by (nonlinear_arith);
    assert((-a.y as int) * (-a.y as int) == a.y as int * a.y as int) by (nonlinear_arith);
    fx::lemma_fmul_square_neg(a.x as int);
    fx::lemma_fmul_square_neg(a.y as int);
}

/// Negating one operand negates the dot product exactly.
pub proof fn lemma_v_dot_neg(a: Vector2, u: Vector2)
    requires
        v_bounded(a),
        v_bounded(u),
    ensures
        v_dot(v_neg(a), u) == -v_dot(a, u),
{
    fx::lemma_fmul_neg(a.x as int, u.x as int);
    fx::lemma_fmul_neg(a.y as int, u.y as int);
    fx::lemma_sat_neg(
        fx::fmul(a.x as int, u.x as int) + fx::fmul(a.y as int, u.y as int),
    );
}

/// A fixed-point squared length is never negative.
pub proof fn lemma_len_sq_nonneg(v: Vector2)
    ensures
        v_len_sq(v) >= 0,
{
    assert(v.x as int * v.x as int >= 0) by (nonlinear_arith);
    assert(v.y as int * v.y as int >= 0) by (nonlinear_arith);
    fx::lemma_quot_nonneg(v.x as int * v.x as int, fx::FP as int);
    fx::lemma_quot_nonneg(v.y as int * v.y as int, fx::FP as int);
}

/// Floor square root of the raw square sum of two bounded scalars.
fn sqrt_square_sum(x: i128, y: i128) -> (r: i128)
    requires
        in_range(x as int),
        in_range(y as int),
    ensures
        r == sqrt_f(x as int * x as int + y as int * y as int),
        0 <= r <= 0x8000_0000_0000_0000,
{
    assert(0 <= x as int * x as int <= 0x4000_0000_0000_0000int * 0x4000_0000_0000_0000int)
        by (nonlinear_arith)
        requires
            -0x4000_0000_0000_0000int <= x as int <= 0x4000_0000_0000_0000int,
    ;
    assert(0 <= y as int * y as int <= 0x4000_0000_0000_0000int * 0x4000_0000_0000_0000int)
        by (nonlinear_arith)
        requires
            -0x4000_0000_0000_0000int <= y as int <= 0x4000_0000_0000_0000int,
    ;
    let n: u128 = (x * x) as u128 + (y * y) as u128;
    let r = fx::isqrt_u(n);
    r as i128
}

pub fn dot(v1: Vector2, v2: Vector2) -> (r: i128)
    requires
        v_bounded(v1),
        v_bounded(v2),
    ensures
        r == v_dot(v1, v2),
{
    fx::fx_add(fx::fx_mul(v1.x, v2.x), fx::fx_mul(v1.y, v2.y))
}

pub fn cross(v1: Vector2, v2: Vector2) -> (r: i128)
    requires
        v_bounded(v1),
        v_bounded(v2),
    ensures
        r == v_cross(v1, v2),
{
    fx::fx_sub(fx::fx_mul(v1.x, v2.y), fx::fx_mul(v1.y, v2.x))
}

/// Perpendicular vector scaled by `f`.
pub fn crossf(v: Vector2, f: i128) -> (r: Vector2)
    requires
        v_bounded(v),
        in_range(f as int),
    ensures
        r.x as int == fmul(-f as int, v.y as int),
        r.y as int == fmul(v.x as int, f as int),
{
    Vector2 { x: fx::fx_mul(-f, v.y), y: fx::fx_mul(v.x, f) }
}

} // verus!
