//! Which of two numbers lies nearer to a third, decided exactly.
//!
//! The difference of two binary64 numbers is in general not a binary64
//! number, so distances are never computed here. A number is its signed
//! significand times a power of two; a comparison of two distances is the
//! sign of a sum of three such terms, and that sign is found in 128-bit
//! integers: exactly where the exponents lie close together, and from the
//! dominant term where they lie so far apart that the rest cannot matter.

use vstd::prelude::*;
use vstd::arithmetic::power2::pow2;
use vstd::arithmetic::power2::lemma_pow2_pos;
use vstd::arithmetic::power2::lemma_pow2_adds;
use vstd::arithmetic::power2::lemma_pow2_strictly_increases;
use vstd::arithmetic::power2::lemma2_to64;
use vstd::arithmetic::power2::lemma2_to64_rest;
use vstd::bits::lemma_u64_shl_is_mul;
use crate::binary64::HIDDEN_BIT;
use crate::binary64::SIGN_BIT;
use crate::binary64::abs;
use crate::binary64::exponent_field;
use crate::binary64::fraction_field;
use crate::binary64::is_nan;
use crate::binary64::le;
use crate::binary64::magnitude;
use crate::binary64::nan;
use crate::binary64::negative;
use crate::binary64::scaled_value;

verus! {

/// -1, 0 or 1 as `x` is negative, zero or positive.
pub open spec fn signum(x: int) -> int {
    if x < 0 {
        -1
    } else if x == 0 {
        0
    } else {
        1
    }
}

/// The distance of the numbers that `a` and `b` denote, multiplied by
/// 2^1074.
pub open spec fn distance(a: u64, b: u64) -> nat {
    if scaled_value(a) >= scaled_value(b) {
        (scaled_value(a) - scaled_value(b)) as nat
    } else {
        (scaled_value(b) - scaled_value(a)) as nat
    }
}

/// `a` lies at least as near to `t` as `b` does; false when any of the
/// three is NaN.
pub open spec fn no_farther(t: u64, a: u64, b: u64) -> bool {
    !nan(t) && !nan(a) && !nan(b) && distance(t, a) <= distance(t, b)
}

/// The significand of `b` as an integer: the fraction bits, under the
/// implicit leading bit unless `b` is subnormal or zero.
pub open spec fn significand(b: u64) -> nat {
    if exponent_field(b) == 0 {
        fraction_field(b)
    } else {
        (HIDDEN_BIT + fraction_field(b)) as nat
    }
}

/// The power of two by which the significand of `b` is multiplied, counted
/// from that of the subnormals.
pub open spec fn exponent(b: u64) -> nat {
    if exponent_field(b) == 0 {
        0
    } else {
        (exponent_field(b) - 1) as nat
    }
}

/// The significand of `b` under the sign of `b`.
pub open spec fn signed_significand(b: u64) -> int {
    if negative(b) {
        -(significand(b) as int)
    } else {
        significand(b) as int
    }
}

/// One term of a sum: `n * 2^e`.
pub open spec fn term(n: int, e: nat) -> int {
    n * pow2(e)
}

/// A number is its signed significand times two to its exponent.
pub proof fn lemma_value_is_term(b: u64)
    ensures
        scaled_value(b) == term(signed_significand(b), exponent(b)),
        magnitude(b) == significand(b) * pow2(exponent(b)),
        significand(b) < 2 * HIDDEN_BIT,
        exponent(b) <= 2046,
{
    lemma2_to64();
    let s = significand(b) as int;
    let p = pow2(exponent(b)) as int;
    lemma_pow2_pos(exponent(b));
    assert(s * p >= 0) by (nonlinear_arith)
        requires
            s >= 0,
            p > 0,
    ;
    if exponent_field(b) == 0 {
        assert(s * 1 == s);
    }
    assert(magnitude(b) == s * p);
    assert((-s) * p == -(s * p)) by (nonlinear_arith);
}

proof fn lemma_pow2_at_least(e: nat, g: nat)
    requires
        g <= e,
    ensures
        pow2(g) <= pow2(e),
        pow2(e) >= 1,
{
    lemma_pow2_pos(e);
    if g < e {
        lemma_pow2_strictly_increases(g, e);
    }
}

/// `2^g` as a machine integer.
fn two_to(g: u32) -> (p: i128)
    requires
        g <= 56,
    ensures
        p == pow2(g as nat),
        1 <= p <= 0x100_0000_0000_0000,
{
    proof {
        lemma2_to64_rest();
        lemma_pow2_at_least(56, g as nat);
        lemma_pow2_pos(g as nat);
        lemma_u64_shl_is_mul(1, g as u64);
    }
    let p: u64 = 1u64 << (g as u64);
    p as i128
}

/// The sign of a machine integer.
fn sign_of(x: i128) -> (s: i8)
    ensures
        s == signum(x as int),
{
    if x < 0 {
        -1
    } else if x == 0 {
        0
    } else {
        1
    }
}

/// Bound on the absolute value of a term's factor: twice a significand
/// stays below it.
const FACTOR_LIMIT: i128 = 0x40_0000_0000_0000;

/// Beyond this a partial sum decides the sign whatever is added to it.
const DOMINANT: i128 = 0x80_0000_0000_0000;

/// A partial sum carried as `m`: exact while small, and otherwise known to
/// be at least as large as `DOMINANT` on the same side of zero.
spec fn carries(m: i128, exact: int) -> bool {
    &&& -DOMINANT < m < DOMINANT ==> m == exact
    &&& m >= DOMINANT ==> exact >= DOMINANT
    &&& m <= -DOMINANT ==> exact <= -DOMINANT
}

/// The two leading terms of a sum, joined at the exponent of the second.
fn join(n1: i128, n2: i128, gap: u32) -> (m: i128)
    requires
        -FACTOR_LIMIT < n1 < FACTOR_LIMIT,
        -FACTOR_LIMIT < n2 < FACTOR_LIMIT,
    ensures
        carries(m, n1 * pow2(gap as nat) + n2),
        -0x8000_0000_0000_0000_0000_0000_0000 < m < 0x8000_0000_0000_0000_0000_0000_0000,
{
    if n1 == 0 {
        assert(0 * pow2(gap as nat) == 0);
        n2
    } else if gap >= 57 {
        proof {
            lemma2_to64_rest();
            lemma_pow2_at_least(gap as nat, 57);
            let p = pow2(gap as nat) as int;
            let n = n1 as int;
            assert(n >= 1 ==> n * p >= p) by (nonlinear_arith)
                requires
                    p >= 1,
            ;
            assert(n <= -1 ==> n * p <= -p) by (nonlinear_arith)
                requires
                    p >= 1,
            ;
        }
        if n1 > 0 {
            0x1000_0000_0000_0000
        } else {
            -0x1000_0000_0000_0000
        }
    } else {
        let p = two_to(gap);
        assert(-0x4000_0000_0000_0000_0000_0000_0000 < n1 * p < 0x4000_0000_0000_0000_0000_0000_0000)
            by (nonlinear_arith)
            requires
                -FACTOR_LIMIT < n1 < FACTOR_LIMIT,
                1 <= p <= 0x100_0000_0000_0000,
        ;
        n1 * p + n2
    }
}

/// The sign of `n1 * 2^e1 + n2 * 2^e2 + n3 * 2^e3`, the exponents given in
/// falling order.
fn sorted_sum_sign(n1: i128, e1: u32, n2: i128, e2: u32, n3: i128, e3: u32) -> (s: i8)
    requires
        e1 >= e2 >= e3,
        -FACTOR_LIMIT < n1 < FACTOR_LIMIT,
        -FACTOR_LIMIT < n2 < FACTOR_LIMIT,
        -FACTOR_LIMIT < n3 < FACTOR_LIMIT,
    ensures
        s == signum(term(n1 as int, e1 as nat) + term(n2 as int, e2 as nat) + term(n3 as int, e3 as nat)),
{
    let g1 = e1 - e2;
    let g2 = e2 - e3;
    let m = join(n1, n2, g1);
    let ghost exact = n1 * pow2(g1 as nat) + n2;
    let ghost scale2 = pow2(g2 as nat) as int;
    let ghost scale3 = pow2(e3 as nat) as int;
    let ghost rest = exact * scale2 + n3;
    proof {
        lemma_pow2_adds(g1 as nat, e2 as nat);
        lemma_pow2_adds(g2 as nat, e3 as nat);
        lemma_pow2_pos(e3 as nat);
        lemma_pow2_pos(g2 as nat);
        let scale1 = pow2(g1 as nat) as int;
        let a = n1 as int;
        let b = n2 as int;
        let c = n3 as int;
        let q = pow2(e2 as nat) as int;
        assert(q == scale2 * scale3);
        assert(pow2(e1 as nat) == scale1 * q);
        // The whole sum is the rest, scaled by the smallest power.
        assert(a * (scale1 * q) + b * q == (a * scale1 + b) * q) by (nonlinear_arith);
        assert(exact * (scale2 * scale3) + c * scale3 == (exact * scale2 + c) * scale3) by (nonlinear_arith);
        assert(term(a, e1 as nat) + term(b, e2 as nat) + term(c, e3 as nat) == rest * scale3);
        assert(signum(rest * scale3) == signum(rest)) by (nonlinear_arith)
            requires
                scale3 > 0,
        ;
    }
    if m >= DOMINANT {
        assert(rest > 0) by (nonlinear_arith)
            requires
                rest == exact * scale2 + n3,
                exact >= DOMINANT,
                scale2 >= 1,
                n3 > -FACTOR_LIMIT,
        ;
        1
    } else if m <= -DOMINANT {
        assert(rest < 0) by (nonlinear_arith)
            requires
                rest == exact * scale2 + n3,
                exact <= -DOMINANT,
                scale2 >= 1,
                n3 < FACTOR_LIMIT,
        ;
        -1
    } else if m == 0 {
        assert(0 * scale2 == 0);
        sign_of(n3)
    } else if g2 >= 56 {
        proof {
            lemma2_to64_rest();
            lemma_pow2_at_least(g2 as nat, 56);
            assert(exact >= 1 ==> rest > 0) by (nonlinear_arith)
                requires
                    rest == exact * scale2 + n3,
                    scale2 >= 0x100_0000_0000_0000,
                    n3 > -FACTOR_LIMIT,
            ;
            assert(exact <= -1 ==> rest < 0) by (nonlinear_arith)
                requires
                    rest == exact * scale2 + n3,
                    scale2 >= 0x100_0000_0000_0000,
                    n3 < FACTOR_LIMIT,
            ;
        }
        sign_of(m)
    } else {
        let p = two_to(g2);
        assert(-0x8000_0000_0000_0000_0000_0000_0000 < m * p < 0x8000_0000_0000_0000_0000_0000_0000)
            by (nonlinear_arith)
            requires
                -DOMINANT < m < DOMINANT,
                1 <= p <= 0x100_0000_0000_0000,
        ;
        sign_of(m * p + n3)
    }
}

/// The sign of `n1 * 2^e1 + n2 * 2^e2 + n3 * 2^e3`.
fn sum_sign(n1: i128, e1: u32, n2: i128, e2: u32, n3: i128, e3: u32) -> (s: i8)
    requires
        -FACTOR_LIMIT < n1 < FACTOR_LIMIT,
        -FACTOR_LIMIT < n2 < FACTOR_LIMIT,
        -FACTOR_LIMIT < n3 < FACTOR_LIMIT,
    ensures
        s == signum(term(n1 as int, e1 as nat) + term(n2 as int, e2 as nat) + term(n3 as int, e3 as nat)),
{
    if e1 >= e2 {
        if e2 >= e3 {
            sorted_sum_sign(n1, e1, n2, e2, n3, e3)
        } else if e1 >= e3 {
            sorted_sum_sign(n1, e1, n3, e3, n2, e2)
        } else {
            sorted_sum_sign(n3, e3, n1, e1, n2, e2)
        }
    } else {
        if e1 >= e3 {
            sorted_sum_sign(n2, e2, n1, e1, n3, e3)
        } else if e2 >= e3 {
            sorted_sum_sign(n2, e2, n3, e3, n1, e1)
        } else {
            sorted_sum_sign(n3, e3, n2, e2, n1, e1)
        }
    }
}

/// The signed significand and the exponent of `b`.
fn split(b: u64) -> (r: (i128, u32))
    ensures
        r.0 == signed_significand(b),
        r.1 == exponent(b),
        -(2 * HIDDEN_BIT) < r.0 < 2 * HIDDEN_BIT,
        r.1 <= 2046,
{
    let m = abs(b);
    let field = m / HIDDEN_BIT;
    let fraction = m % HIDDEN_BIT;
    let s: u64 = if field == 0 {
        fraction
    } else {
        HIDDEN_BIT + fraction
    };
    let e: u32 = if field == 0 {
        0
    } else {
        (field - 1) as u32
    };
    let n: i128 = if b >= SIGN_BIT {
        -(s as i128)
    } else {
        s as i128
    };
    (n, e)
}

/// On which side of the midpoint of `a` and `b` the number `t` lies: the
/// sign of `2t - a - b`.
pub fn midpoint_side(t: u64, a: u64, b: u64) -> (s: i8)
    ensures
        s == signum(2 * scaled_value(t) - scaled_value(a) - scaled_value(b)),
{
    let (nt, et) = split(t);
    let (na, ea) = split(a);
    let (nb, eb) = split(b);
    proof {
        lemma_value_is_term(t);
        lemma_value_is_term(a);
        lemma_value_is_term(b);
        let pt = pow2(et as nat) as int;
        let pa = pow2(ea as nat) as int;
        let pb = pow2(eb as nat) as int;
        assert((2 * nt) * pt == 2 * (nt * pt)) by (nonlinear_arith);
        assert((-na) * pa == -(na * pa)) by (nonlinear_arith);
        assert((-nb) * pb == -(nb * pb)) by (nonlinear_arith);
    }
    sum_sign(2 * nt, et, -na, ea, -nb, eb)
}

/// Whether `a` lies at least as near to `t` as `b` does: decides
/// [`no_farther`].
pub fn is_no_farther(t: u64, a: u64, b: u64) -> (r: bool)
    ensures
        r == no_farther(t, a, b),
{
    if is_nan(t) || is_nan(a) || is_nan(b) {
        return false;
    }
    let a_low = le(a, t);
    let b_low = le(b, t);
    if a_low && b_low {
        // Both at or below `t`: the larger is the nearer.
        le(b, a)
    } else if !a_low && !b_low {
        // Both above `t`: the smaller is the nearer.
        le(a, b)
    } else if a_low {
        // a <= t < b: `a` is no farther while `t` has not passed the midpoint.
        midpoint_side(t, a, b) <= 0
    } else {
        // b <= t < a
        midpoint_side(t, a, b) >= 0
    }
}

} // verus!
