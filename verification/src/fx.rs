//! Fixed-point scalar arithmetic.
//!
//! A scalar is an `i128` counted in units of `1 / FP`: the raw value `FP`
//! stands for one, `FP / 2` for one half.  Every operation clamps its result
//! into `[-SAT, SAT]`, so the operations are total and closed over the
//! representable range, and division rounds toward zero and yields zero for a
//! zero divisor.

use vstd::prelude::*;

verus! {

/// Raw integer units in one fixed-point unit.
pub const FP: i128 = 65536;

/// Saturation bound: every scalar lies in `[-SAT, SAT]`.
pub const SAT: i128 = 0x4000_0000_0000_0000;

/// Magnitude bound accepted by the raw quotient; large enough for any
/// product of two in-range scalars.
pub const QMAX: i128 = 0x2000_0000_0000_0000_0000_0000_0000_0000;

pub open spec fn iabs(a: int) -> int {
    if a < 0 {
        -a
    } else {
        a
    }
}

/// Quotient rounded toward zero, total: a zero divisor yields zero.
pub open spec fn quot(a: int, b: int) -> int {
    if b == 0 {
        0
    } else if (a < 0) == (b < 0) {
        iabs(a) / iabs(b)
    } else {
        -(iabs(a) / iabs(b))
    }
}

/// Clamp into the representable range.
pub open spec fn sat(a: int) -> int {
    if a > SAT {
        SAT as int
    } else if a < -SAT {
        -SAT as int
    } else {
        a
    }
}

pub open spec fn in_range(a: int) -> bool {
    -SAT <= a <= SAT
}

/// Fixed-point sum.
pub open spec fn fadd(a: int, b: int) -> int {
    sat(a + b)
}

/// Fixed-point difference.
pub open spec fn fsub(a: int, b: int) -> int {
    sat(a - b)
}

/// Fixed-point product: the raw product carries a factor `FP` too many.
pub open spec fn fmul(a: int, b: int) -> int {
    sat(quot(a * b, FP as int))
}

/// Fixed-point quotient: the dividend is widened by `FP` first.
pub open spec fn fdiv(a: int, b: int) -> int {
    sat(quot(a * FP, b))
}

/// Floor of the square root, as a recursive definition.
pub open spec fn sqrt_f(n: int) -> int
    decreases n,
{
    if n <= 0 {
        0
    } else {
        let r = sqrt_f(n - 1);
        if (r + 1) * (r + 1) <= n {
            r + 1
        } else {
            r
        }
    }
}

/// Fixed-point square root of a fixed-point scalar: the radicand is widened
/// by `FP` so that the result is again in fixed-point units.
pub open spec fn fsqrt(a: int) -> int {
    sat(sqrt_f(a * FP))
}

/// `sqrt_f(n)` is the floor of the square root of `n`.
pub proof fn lemma_sqrt_f(n: int)
    requires
        n >= 0,
    ensures
        sqrt_f(n) >= 0,
        sqrt_f(n) * sqrt_f(n) <= n,
        n < (sqrt_f(n) + 1) * (sqrt_f(n) + 1),
    decreases n,
{
    if n > 0 {
        lemma_sqrt_f(n - 1);
        let r = sqrt_f(n - 1);
        if (r + 1) * (r + 1) <= n {
            assert(n - 1 < (r + 1) * (r + 1));
            assert(n == (r + 1) * (r + 1));
            assert((r + 2) * (r + 2) > (r + 1) * (r + 1)) by (nonlinear_arith)
                requires
                    r >= 0,
            ;
        }
    }
}

/// The floor square root is the only value bracketing `n` between
/// consecutive squares.
pub proof fn lemma_sqrt_f_unique(n: int, r: int)
    requires
        r >= 0,
        r * r <= n,
        n < (r + 1) * (r + 1),
    ensures
        r == sqrt_f(n),
{
    lemma_sqrt_f(n);
    let s = sqrt_f(n);
    if r < s {
        assert(r + 1 <= s);
        assert((r + 1) * (r + 1) <= s * s) by (nonlinear_arith)
            requires
                0 <= r + 1 <= s,
        ;
    }
    if s < r {
        assert(s + 1 <= r);
        assert((s + 1) * (s + 1) <= r * r) by (nonlinear_arith)
            requires
                0 <= s + 1 <= r,
        ;
    }
}

/// A quotient with a zero dividend is zero.
pub proof fn lemma_quot_zero(b: int)
    ensures
        quot(0, b) == 0,
{
    if b != 0 {
        assert(0int / iabs(b) == 0) by (nonlinear_arith)
            requires
                iabs(b) > 0,
        ;
    }
}

/// Negating the dividend negates the quotient exactly.
pub proof fn lemma_quot_neg(a: int, b: int)
    ensures
        quot(-a, b) == -quot(a, b),
{
    assert(iabs(-a) == iabs(a));
}

/// A quotient of nonnegative operands is nonnegative.
pub proof fn lemma_quot_nonneg(a: int, b: int)
    requires
        a >= 0,
        b >= 0,
    ensures
        quot(a, b) >= 0,
{
    if b != 0 {
        assert(a / b >= 0) by (nonlinear_arith)
            requires
                a >= 0,
                b > 0,
        ;
    }
}

/// Saturation is symmetric about zero.
pub proof fn lemma_sat_neg(a: int)
    ensures
        sat(-a) == -sat(a),
{
}

/// Negating one factor negates the fixed-point product exactly.
pub proof fn lemma_fmul_neg(a: int, b: int)
    ensures
        fmul(-a, b) == -fmul(a, b),
{
    assert((-a) * b == -(a * b)) by (nonlinear_arith);
    lemma_quot_neg(a * b, FP as int);
    lemma_sat_neg(quot(a * b, FP as int));
}

/// Squares are insensitive to the sign of the operand.
pub proof fn lemma_fmul_square_neg(a: int)
    ensures
        fmul(-a, -a) == fmul(a, a),
{
    assert((-a) * (-a) == a * a) by (nonlinear_arith);
}

/// Multiplying and then dividing by the same positive factor is exact.
pub proof fn lemma_quot_mul_cancel(a: int, b: int)
    requires
        b >= 1,
    ensures
        quot(a * b, b) == a,
{
    vstd::arithmetic::div_mod::lemma_fundamental_div_mod_converse(iabs(a) * b, b, iabs(a), 0);
    assert((iabs(a) * b) / b == iabs(a));
    if a >= 0 {
        assert(a * b >= 0 && iabs(a * b) == iabs(a) * b) by (nonlinear_arith)
            requires
                a >= 0,
                b >= 1,
        ;
    } else {
        assert(a * b < 0 && iabs(a * b) == iabs(a) * b) by (nonlinear_arith)
            requires
                a < 0,
                b >= 1,
        ;
    }
}

/// A quotient of a dividend at least the positive divisor is at least one.
pub proof fn lemma_quot_ge_one(x: int, d: int)
    requires
        1 <= d <= x,
    ensures
        quot(x, d) >= 1,
{
    vstd::arithmetic::div_mod::lemma_div_is_ordered(d, x, d);
    assert(d / d == 1) by (nonlinear_arith)
        requires
            d >= 1,
    ;
}

/// Quotient rounded toward zero.  Total: a zero divisor yields zero.
pub fn quot_i(a: i128, b: i128) -> (r: i128)
    requires
        -QMAX <= a <= QMAX,
        -QMAX <= b <= QMAX,
    ensures
        r == quot(a as int, b as int),
{
    if b == 0 {
        return 0;
    }
    let an: u128 = if a < 0 {
        (-a) as u128
    } else {
        a as u128
    };
    let bn: u128 = if b < 0 {
        (-b) as u128
    } else {
        b as u128
    };
    assert(an as int == iabs(a as int));
    assert(bn as int == iabs(b as int));
    let q: u128 = an / bn;
    assert(q as int <= an as int) by (nonlinear_arith)
        requires
            q as int == an as int / bn as int,
            an as int >= 0,
            bn as int >= 1,
    ;
    if (a < 0) == (b < 0) {
        q as i128
    } else {
        -(q as i128)
    }
}

/// Clamp into the representable range.
pub fn sat_i(a: i128) -> (r: i128)
    ensures
        r == sat(a as int),
{
    if a > SAT {
        SAT
    } else if a < -SAT {
        -SAT
    } else {
        a
    }
}

/// Saturating fixed-point sum.
pub fn fx_add(a: i128, b: i128) -> (r: i128)
    requires
        in_range(a as int),
        in_range(b as int),
    ensures
        r == fadd(a as int, b as int),
{
    sat_i(a + b)
}

/// Saturating fixed-point difference.
pub fn fx_sub(a: i128, b: i128) -> (r: i128)
    requires
        in_range(a as int),
        in_range(b as int),
    ensures
        r == fsub(a as int, b as int),
{
    sat_i(a - b)
}

/// Saturating fixed-point product.
pub fn fx_mul(a: i128, b: i128) -> (r: i128)
    requires
        in_range(a as int),
        in_range(b as int),
    ensures
        r == fmul(a as int, b as int),
{
    assert(-QMAX <= a as int * b as int <= QMAX) by (nonlinear_arith)
        requires
            -SAT <= a as int <= SAT,
            -SAT <= b as int <= SAT,
            QMAX == SAT as int * SAT as int * 2,
    ;
    let p: i128 = a * b;
    sat_i(quot_i(p, FP))
}

/// Saturating fixed-point quotient; a zero divisor yields zero.
pub fn fx_div(a: i128, b: i128) -> (r: i128)
    requires
        in_range(a as int),
        in_range(b as int),
    ensures
        r == fdiv(a as int, b as int),
{
    assert(-QMAX <= a as int * FP as int <= QMAX) by (nonlinear_arith)
        requires
            -SAT <= a as int <= SAT,
            QMAX == SAT as int * SAT as int * 2,
            FP as int == 65536,
            SAT as int >= 65536,
    ;
    let p: i128 = a * FP;
    sat_i(quot_i(p, b))
}

/// Saturating fixed-point square root of a nonnegative scalar.
pub fn fx_sqrt(a: i128) -> (r: i128)
    requires
        0 <= a <= SAT,
    ensures
        r == fsqrt(a as int),
{
    assert(0 <= a as int * FP as int <= 0x4000_0000_0000_0000int * 65536) by (nonlinear_arith)
        requires
            0 <= a as int <= 0x4000_0000_0000_0000int,
            FP as int == 65536,
    ;
    let n: u128 = (a as u128) * (FP as u128);
    let r = isqrt_u(n);
    sat_i(r as i128)
}

/// Floor square root by bisection.
pub fn isqrt_u(n: u128) -> (r: u128)
    requires
        n < 0x4000_0000_0000_0000_0000_0000_0000_0000,
    ensures
        r as int == sqrt_f(n as int),
        r * r <= n,
        r <= 0x8000_0000_0000_0000,
{
    let mut lo: u128 = 0;
    let mut hi: u128 = 0x8000_0000_0000_0000;
    assert(0x8000_0000_0000_0000int * 0x8000_0000_0000_0000int
        == 0x4000_0000_0000_0000_0000_0000_0000_0000int) by (nonlinear_arith);
    while lo + 1 < hi
        invariant
            lo < hi <= 0x8000_0000_0000_0000,
            lo as int * lo as int <= n as int,
            (n as int) < hi as int * hi as int,
        decreases hi - lo,
    {
        let mid: u128 = lo + (hi - lo) / 2;
        assert(mid as int * mid as int <= 0x4000_0000_0000_0000_0000_0000_0000_0000int)
            by (nonlinear_arith)
            requires
                0 <= mid as int <= 0x8000_0000_0000_0000int,
        ;
        if mid * mid <= n {
            lo = mid;
        } else {
            hi = mid;
        }
    }
    proof {
        lemma_sqrt_f_unique(n as int, lo as int);
    }
    lo
}

} // verus!
