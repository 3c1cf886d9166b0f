//! Fixed-point scalar arithmetic.
//!
//! Every physical quantity in this library is a signed count of `1/SCALE`
//! units stored in an `i64`. All operations round toward zero and clamp
//! symmetrically to `[-MAXV, MAXV]`, so they are total: like the IEEE
//! scalars customary in particle solvers, they degrade gracefully instead
//! of aborting when a product leaves the representable range. Every
//! operation's result is pinned exactly by a spec-level mirror.

use vstd::prelude::*;
use vstd::arithmetic::div_mod::{lemma_div_nonincreasing, lemma_div_pos_is_pos, lemma_div_is_ordered, lemma_div_multiples_vanish};

verus! {

/// Number of fraction steps per physical unit.
pub const SCALE: i64 = 65536;

/// Largest magnitude a stored scalar may take.
pub const MAXV: i64 = 0x100_0000_0000;

/// The scalar `x` is within the representable range.
pub open spec fn fxb(x: int) -> bool {
    -(MAXV as int) <= x <= MAXV as int
}

/// Symmetric clamp into `[-MAXV, MAXV]`.
pub open spec fn sat(x: int) -> int {
    if x > MAXV as int {
        MAXV as int
    } else if x < -(MAXV as int) {
        -(MAXV as int)
    } else {
        x
    }
}

/// Division truncated toward zero, for a positive divisor.
pub open spec fn tdiv(a: int, b: int) -> int
    recommends
        b > 0,
{
    if a >= 0 {
        a / b
    } else {
        -((-a) / b)
    }
}

/// Fixed-point product of two scalars.
pub open spec fn s_mul(a: int, b: int) -> int {
    sat(tdiv(a * b, SCALE as int))
}

/// Fixed-point product of three scalars, rescaled once; symmetric in
/// every argument order because the wide integer product is formed first.
pub open spec fn s_mul3(a: int, b: int, c: int) -> int {
    sat(tdiv(a * b * c, (SCALE * SCALE) as int))
}

/// Fixed-point quotient; a zero divisor yields zero.
pub open spec fn s_div(a: int, b: int) -> int {
    if b == 0 {
        0
    } else if b > 0 {
        sat(tdiv(a * SCALE, b))
    } else {
        sat(-tdiv(a * SCALE, -b))
    }
}

/// Saturating sum.
pub open spec fn s_add(a: int, b: int) -> int {
    sat(a + b)
}

/// Saturating difference.
pub open spec fn s_sub(a: int, b: int) -> int {
    sat(a - b)
}

/// Half of a scalar, rounded toward zero.
pub open spec fn s_half(a: int) -> int {
    tdiv(a, 2)
}

/// Truncated division never grows a non-saturated wide intermediate.
proof fn lemma_tdiv_bound(a: int, b: int)
    requires
        b >= 1,
    ensures
        a >= 0 ==> 0 <= tdiv(a, b) <= a,
        a < 0 ==> a <= tdiv(a, b) <= 0,
{
    if a >= 0 {
        lemma_div_nonincreasing(a, b);
        lemma_div_pos_is_pos(a, b);
    } else {
        lemma_div_nonincreasing(-a, b);
        lemma_div_pos_is_pos(-a, b);
    }
}

/// Truncated division is odd in its dividend.
pub proof fn lemma_tdiv_neg(a: int, b: int)
    requires
        b > 0,
    ensures
        tdiv(-a, b) == -tdiv(a, b),
{
    if a == 0 {
    } else if a > 0 {
        lemma_div_pos_is_pos(a, b);
    } else {
        lemma_div_pos_is_pos(-a, b);
    }
}

/// The clamp is odd.
pub proof fn lemma_sat_neg(x: int)
    ensures
        sat(-x) == -sat(x),
{
}

/// The fixed-point product is odd in either factor.
pub proof fn lemma_s_mul_neg(a: int, b: int)
    ensures
        s_mul(-a, b) == -s_mul(a, b),
        s_mul(a, -b) == -s_mul(a, b),
{
    assert((-a) * b == -(a * b)) by (nonlinear_arith);
    assert(a * (-b) == -(a * b)) by (nonlinear_arith);
    lemma_tdiv_neg(a * b, SCALE as int);
    lemma_sat_neg(tdiv(a * b, SCALE as int));
}

/// Zero annihilates the fixed-point product.
pub proof fn lemma_s_mul_zero(b: int)
    ensures
        s_mul(0, b) == 0,
        s_mul(b, 0) == 0,
{
    assert(0int * b == 0) by (nonlinear_arith);
    assert(b * 0int == 0) by (nonlinear_arith);
    assert(tdiv(0, SCALE as int) == 0);
}

/// Multiplying by the fixed-point unit is exact for in-range scalars.
pub proof fn lemma_s_mul_one(b: int)
    requires
        fxb(b),
    ensures
        s_mul(SCALE as int, b) == b,
        s_mul(b, SCALE as int) == b,
{
    if b >= 0 {
        lemma_div_multiples_vanish(b, SCALE as int);
        assert(SCALE as int * b == b * SCALE as int) by (nonlinear_arith);
    } else {
        lemma_div_multiples_vanish(-b, SCALE as int);
        assert(SCALE as int * b == -((-b) * SCALE as int)) by (nonlinear_arith);
        lemma_tdiv_neg((-b) * SCALE as int, SCALE as int);
        assert(b * SCALE as int == SCALE as int * b) by (nonlinear_arith);
    }
}

/// A product of nonnegative scalars is nonnegative.
pub proof fn lemma_s_mul_nonneg(a: int, b: int)
    requires
        a >= 0,
        b >= 0,
    ensures
        s_mul(a, b) >= 0,
{
    assert(a * b >= 0) by (nonlinear_arith)
        requires a >= 0, b >= 0;
    if a * b > 0 {
        lemma_div_pos_is_pos(a * b, SCALE as int);
    }
}

/// Truncated division of zero is zero.
pub proof fn lemma_tdiv_zero(b: int)
    requires
        b > 0,
    ensures
        tdiv(0, b) == 0,
{
    vstd::arithmetic::div_mod::lemma_div_of0(b);
}

/// Zero divided by anything is zero.
pub proof fn lemma_s_div_zero(b: int)
    ensures
        s_div(0, b) == 0,
{
    assert(0int * SCALE == 0) by (nonlinear_arith);
    if b > 0 {
        lemma_tdiv_zero(b);
    } else if b < 0 {
        lemma_tdiv_zero(-b);
    }
}

/// Zero annihilates the triple product.
pub proof fn lemma_s_mul3_zero(a: int, c: int)
    ensures
        s_mul3(a, 0, c) == 0,
        s_mul3(0, a, c) == 0,
        s_mul3(a, c, 0) == 0,
{
    assert(a * 0 * c == 0) by (nonlinear_arith);
    assert(0 * a * c == 0) by (nonlinear_arith);
    assert(a * c * 0 == 0) by (nonlinear_arith);
    lemma_tdiv_zero((SCALE * SCALE) as int);
}

/// A quotient of nonnegative scalars is nonnegative.
pub proof fn lemma_s_div_nonneg(a: int, b: int)
    requires
        a >= 0,
        b >= 0,
    ensures
        s_div(a, b) >= 0,
{
    if b > 0 {
        assert(a * SCALE >= 0) by (nonlinear_arith)
            requires a >= 0;
        if a * SCALE > 0 {
            lemma_div_pos_is_pos(a * SCALE, b);
        }
    }
}

/// A ratio of a part to a whole stays within the fixed-point unit.
pub proof fn lemma_s_div_le_one(a: int, b: int)
    requires
        0 <= a <= b,
        b > 0,
    ensures
        0 <= s_div(a, b) <= SCALE as int,
{
    lemma_s_div_nonneg(a, b);
    assert(a * SCALE <= b * SCALE) by (nonlinear_arith)
        requires a <= b, SCALE > 0;
    lemma_div_is_ordered(a * SCALE, b * SCALE, b);
    lemma_div_multiples_vanish(SCALE as int, b);
    assert(b * SCALE == SCALE as int * b) by (nonlinear_arith);
}

/// A quotient of a nonpositive scalar by a nonnegative one is nonpositive.
pub proof fn lemma_s_div_nonpos(a: int, b: int)
    requires
        a <= 0,
        b >= 0,
    ensures
        s_div(a, b) <= 0,
{
    if b > 0 {
        assert(a * SCALE <= 0) by (nonlinear_arith)
            requires a <= 0;
        if a * SCALE < 0 {
            lemma_div_pos_is_pos(-(a * SCALE), b);
        }
    }
}

/// Dividing a multiple of the unit back by the unit is exact.
pub proof fn lemma_tdiv_exact_mul(x: int)
    ensures
        tdiv(x * SCALE, SCALE as int) == x,
{
    if x >= 0 {
        lemma_div_multiples_vanish(x, SCALE as int);
        assert(x * SCALE == SCALE as int * x) by (nonlinear_arith);
    } else {
        lemma_div_multiples_vanish(-x, SCALE as int);
        assert(-(x * SCALE) == SCALE as int * (-x)) by (nonlinear_arith);
        lemma_tdiv_neg(-(x * SCALE), SCALE as int);
    }
}

/// A product of a nonnegative and a nonpositive scalar is nonpositive.
pub proof fn lemma_s_mul_nonpos(a: int, b: int)
    requires
        a >= 0,
        b <= 0,
    ensures
        s_mul(a, b) <= 0,
{
    lemma_s_mul_nonneg(a, -b);
    lemma_s_mul_neg(a, -b);
}

/// Magnitude bound of a product from magnitude bounds of its factors.
pub proof fn lemma_abs_mul_bound(x: int, y: int, bx: int, by: int)
    requires
        -bx <= x <= bx,
        -by <= y <= by,
        0 <= bx,
        0 <= by,
    ensures
        -(bx * by) <= x * y <= bx * by,
{
    assert(-(bx * by) <= x * y <= bx * by) by (nonlinear_arith)
        requires
            -bx <= x <= bx,
            -by <= y <= by,
            0 <= bx,
            0 <= by;
}

/// Clamp a wide intermediate into a stored scalar.
fn clamp(q: i128) -> (r: i64)
    ensures
        r as int == sat(q as int),
        fxb(r as int),
{
    if q > MAXV as i128 {
        MAXV
    } else if q < -(MAXV as i128) {
        -MAXV
    } else {
        q as i64
    }
}

/// Truncated division of a wide intermediate by a positive divisor.
fn tdiv_exec(p: i128, d: i128) -> (r: i128)
    requires
        d > 0,
        p != i128::MIN,
    ensures
        r as int == tdiv(p as int, d as int),
        p >= 0 ==> 0 <= r <= p,
        p < 0 ==> p <= r <= 0,
{
    proof {
        lemma_tdiv_bound(p as int, d as int);
    }
    if p >= 0 {
        let q: u128 = (p as u128) / (d as u128);
        proof {
            lemma_div_nonincreasing(p as int, d as int);
            lemma_div_pos_is_pos(p as int, d as int);
        }
        q as i128
    } else {
        let n: i128 = -p;
        let q: u128 = (n as u128) / (d as u128);
        proof {
            lemma_div_nonincreasing(n as int, d as int);
            lemma_div_pos_is_pos(n as int, d as int);
        }
        -(q as i128)
    }
}

/// Fixed-point multiplication.
pub fn fx_mul(a: i64, b: i64) -> (r: i64)
    requires
        fxb(a as int),
        fxb(b as int),
    ensures
        r as int == s_mul(a as int, b as int),
        fxb(r as int),
{
    proof {
        lemma_abs_mul_bound(a as int, b as int, MAXV as int, MAXV as int);
    }
    let p: i128 = (a as i128) * (b as i128);
    let q = tdiv_exec(p, SCALE as i128);
    clamp(q)
}

/// Fixed-point product of three factors, formed on the wide intermediate.
pub fn fx_mul3(a: i64, b: i64, c: i64) -> (r: i64)
    requires
        fxb(a as int),
        fxb(b as int),
        fxb(c as int),
    ensures
        r as int == s_mul3(a as int, b as int, c as int),
        fxb(r as int),
{
    proof {
        lemma_abs_mul_bound(a as int, b as int, MAXV as int, MAXV as int);
        lemma_abs_mul_bound(a as int * b as int, c as int, (MAXV as int) * (MAXV as int), MAXV as int);
        assert((SCALE * SCALE) as int == 0x1_0000_0000int);
    }
    let p: i128 = (a as i128) * (b as i128) * (c as i128);
    let q = tdiv_exec(p, 0x1_0000_0000i128);
    clamp(q)
}

/// Fixed-point division; a zero divisor yields zero.
pub fn fx_div(a: i64, b: i64) -> (r: i64)
    requires
        fxb(a as int),
        fxb(b as int),
    ensures
        r as int == s_div(a as int, b as int),
        fxb(r as int),
{
    if b == 0 {
        return 0;
    }
    proof {
        lemma_abs_mul_bound(a as int, SCALE as int, MAXV as int, SCALE as int);
    }
    let p: i128 = (a as i128) * (SCALE as i128);
    if b > 0 {
        let q = tdiv_exec(p, b as i128);
        clamp(q)
    } else {
        let q = tdiv_exec(p, -(b as i128));
        clamp(-q)
    }
}

/// Saturating addition.
pub fn fx_add(a: i64, b: i64) -> (r: i64)
    requires
        fxb(a as int),
        fxb(b as int),
    ensures
        r as int == s_add(a as int, b as int),
        fxb(r as int),
{
    let s: i64 = a + b;
    if s > MAXV {
        MAXV
    } else if s < -MAXV {
        -MAXV
    } else {
        s
    }
}

/// Saturating subtraction.
pub fn fx_sub(a: i64, b: i64) -> (r: i64)
    requires
        fxb(a as int),
        fxb(b as int),
    ensures
        r as int == s_sub(a as int, b as int),
        fxb(r as int),
{
    let s: i64 = a - b;
    if s > MAXV {
        MAXV
    } else if s < -MAXV {
        -MAXV
    } else {
        s
    }
}

/// Negation.
pub fn fx_neg(a: i64) -> (r: i64)
    requires
        fxb(a as int),
    ensures
        r as int == -(a as int),
        fxb(r as int),
{
    -a
}

/// Half, rounded toward zero.
pub fn fx_half(a: i64) -> (r: i64)
    requires
        fxb(a as int),
    ensures
        r as int == s_half(a as int),
        fxb(r as int),
{
    let q = tdiv_exec(a as i128, 2);
    q as i64
}

} // verus!
