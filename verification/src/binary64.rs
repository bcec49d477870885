//! IEEE-754 binary64 numbers, handled as their raw 64-bit patterns.
//!
//! A pattern is one sign bit, an 11-bit biased exponent and a 52-bit fraction.
//! The model given to every pattern is an exact integer: the number it
//! denotes multiplied by 2^1074, the reciprocal of the smallest subnormal.
//! Comparisons computed here on patterns are proved to agree with the order
//! of those integers, so callers can decide "is this finite", "is this
//! earlier", "is this within the limits" without ever rounding.

use vstd::prelude::*;
use vstd::arithmetic::power2::pow2;
use vstd::arithmetic::power2::lemma_pow2_pos;
use vstd::arithmetic::power2::lemma_pow2_unfold;
use vstd::arithmetic::power2::lemma_pow2_strictly_increases;
use vstd::arithmetic::mul::lemma_mul_strict_inequality;
use vstd::arithmetic::mul::lemma_mul_inequality;
use vstd::arithmetic::mul::lemma_mul_is_commutative;

verus! {

/// The sign bit; also the pattern of negative zero.
pub const SIGN_BIT: u64 = 0x8000_0000_0000_0000;

/// The pattern of positive infinity: every exponent bit set, no fraction bit.
pub const INFINITY: u64 = 0x7ff0_0000_0000_0000;

/// 2^52: the weight of the lowest exponent bit, and the implicit leading bit
/// of a normal number's significand.
pub const HIDDEN_BIT: u64 = 0x0010_0000_0000_0000;

/// The pattern of positive zero.
pub const ZERO: u64 = 0;

/// The pattern of 1.0.
pub const ONE: u64 = 0x3ff0_0000_0000_0000;

/// Whether the sign bit of `b` is set.
pub open spec fn negative(b: u64) -> bool {
    b >= SIGN_BIT
}

/// The pattern with its sign bit cleared: exponent and fraction together.
pub open spec fn magnitude_bits(b: u64) -> u64 {
    if b >= SIGN_BIT {
        (b - SIGN_BIT) as u64
    } else {
        b
    }
}

/// The pattern of the absolute value of `b`.
pub open spec fn abs_of(b: u64) -> u64 {
    magnitude_bits(b)
}

/// The biased exponent, 0 to 2047.
pub open spec fn exponent_field(b: u64) -> nat {
    (magnitude_bits(b) / HIDDEN_BIT) as nat
}

/// The 52 fraction bits.
pub open spec fn fraction_field(b: u64) -> nat {
    (magnitude_bits(b) % HIDDEN_BIT) as nat
}

/// Not a number: all exponent bits set and some fraction bit set.
pub open spec fn nan(b: u64) -> bool {
    magnitude_bits(b) > INFINITY
}

/// Positive or negative infinity.
pub open spec fn infinite(b: u64) -> bool {
    magnitude_bits(b) == INFINITY
}

/// An ordinary number: zero, subnormal or normal.
pub open spec fn finite(b: u64) -> bool {
    magnitude_bits(b) < INFINITY
}

/// The absolute value that `b` denotes, multiplied by 2^1074.
///
/// A subnormal (exponent field 0) denotes `fraction * 2^-1074`; a normal
/// number denotes `(2^52 + fraction) * 2^(exponent - 1075)`. The same formula
/// is applied to the patterns with all exponent bits set, which places the
/// infinities beyond every finite number.
pub open spec fn magnitude(b: u64) -> nat {
    let e = exponent_field(b);
    let f = fraction_field(b);
    if e == 0 {
        f
    } else {
        ((HIDDEN_BIT + f) * pow2((e - 1) as nat)) as nat
    }
}

/// The number that `b` denotes, multiplied by 2^1074. Exact for every finite
/// pattern; both zeros map to 0.
pub open spec fn scaled_value(b: u64) -> int {
    if negative(b) {
        -(magnitude(b) as int)
    } else {
        magnitude(b) as int
    }
}

/// IEEE `a < b`: false when either side is NaN.
pub open spec fn below(a: u64, b: u64) -> bool {
    !nan(a) && !nan(b) && scaled_value(a) < scaled_value(b)
}

/// IEEE `a <= b`: false when either side is NaN.
pub open spec fn at_most(a: u64, b: u64) -> bool {
    !nan(a) && !nan(b) && scaled_value(a) <= scaled_value(b)
}

/// IEEE `a == b`: false when either side is NaN, true of the two zeros.
pub open spec fn same_value(a: u64, b: u64) -> bool {
    !nan(a) && !nan(b) && scaled_value(a) == scaled_value(b)
}

/// A signed integer that orders patterns as the numbers they denote: the
/// magnitude bits, negated when the sign bit is set.
pub open spec fn key(b: u64) -> int {
    if negative(b) {
        -(magnitude_bits(b) as int)
    } else {
        magnitude_bits(b) as int
    }
}

proof fn lemma_pow2_increases(e1: nat, e2: nat)
    requires
        e1 <= e2,
    ensures
        pow2(e1) <= pow2(e2),
{
    if e1 < e2 {
        lemma_pow2_strictly_increases(e1, e2);
    }
}

proof fn lemma_magnitude_increases(a: u64, b: u64)
    requires
        magnitude_bits(a) < magnitude_bits(b),
    ensures
        magnitude(a) < magnitude(b),
{
    let ea = exponent_field(a);
    let fa = fraction_field(a);
    let eb = exponent_field(b);
    let fb = fraction_field(b);
    let w = HIDDEN_BIT as int;
    assert(magnitude_bits(a) == ea * w + fa);
    assert(magnitude_bits(b) == eb * w + fb);
    assert(ea <= eb);
    if ea == eb {
        assert(fa < fb);
        if ea != 0 {
            let p = pow2((ea - 1) as nat) as int;
            lemma_pow2_pos((ea - 1) as nat);
            lemma_mul_strict_inequality(w + fa, w + fb, p);
        }
    } else {
        let pb = pow2((eb - 1) as nat) as int;
        lemma_pow2_pos((eb - 1) as nat);
        // The least number with exponent field `eb` already exceeds `a`.
        assert(w * pb <= (w + fb) * pb) by {
            lemma_mul_inequality(w, w + fb, pb);
        }
        if ea == 0 {
            assert(w * 1 <= w * pb) by {
                lemma_mul_inequality(1, pb, w);
                lemma_mul_is_commutative(w, pb);
            }
        } else {
            let pa = pow2((ea - 1) as nat) as int;
            lemma_pow2_pos((ea - 1) as nat);
            lemma_pow2_unfold(ea);
            lemma_pow2_increases(ea, (eb - 1) as nat);
            assert((w + fa) * pa < (2 * w) * pa) by {
                lemma_mul_strict_inequality(w + fa, 2 * w, pa);
            }
            assert((2 * w) * pa == w * (2 * pa)) by (nonlinear_arith);
            assert(w * (2 * pa) <= w * pb) by {
                lemma_mul_inequality(2 * pa, pb, w);
                lemma_mul_is_commutative(w, pb);
                lemma_mul_is_commutative(w, 2 * pa);
            }
        }
    }
}

/// The magnitude bits, read as an unsigned integer, order patterns exactly as
/// the absolute values they denote.
pub proof fn lemma_magnitude_order(a: u64, b: u64)
    ensures
        magnitude_bits(a) < magnitude_bits(b) <==> magnitude(a) < magnitude(b),
        magnitude_bits(a) == magnitude_bits(b) <==> magnitude(a) == magnitude(b),
{
    if magnitude_bits(a) < magnitude_bits(b) {
        lemma_magnitude_increases(a, b);
    } else if magnitude_bits(b) < magnitude_bits(a) {
        lemma_magnitude_increases(b, a);
    }
}

/// A pattern denotes zero exactly when its magnitude bits are all clear.
pub proof fn lemma_magnitude_zero(b: u64)
    ensures
        magnitude(b) == 0 <==> magnitude_bits(b) == 0,
{
    lemma_magnitude_order(ZERO, b);
}

/// The order key orders patterns exactly as the numbers they denote.
pub proof fn lemma_key_order(a: u64, b: u64)
    ensures
        key(a) < key(b) <==> scaled_value(a) < scaled_value(b),
        key(a) == key(b) <==> scaled_value(a) == scaled_value(b),
{
    lemma_magnitude_order(a, b);
    lemma_magnitude_order(b, a);
    lemma_magnitude_zero(a);
    lemma_magnitude_zero(b);
}

/// A number strictly between two finite numbers is finite.
pub proof fn lemma_between_finite(a: u64, x: u64, b: u64)
    requires
        finite(a),
        finite(b),
        below(a, x),
        below(x, b),
    ensures
        finite(x),
{
    lemma_key_order(a, x);
    lemma_key_order(x, b);
}

/// On numbers, `below` is a strict total order up to `same_value`:
/// irreflexive, transitive, and any two numbers are comparable.
pub proof fn lemma_below_is_strict_order(a: u64, b: u64, c: u64)
    ensures
        !below(a, a),
        below(a, b) && below(b, c) ==> below(a, c),
        !nan(a) && !nan(b) ==> (below(a, b) || same_value(a, b) || below(b, a)),
        !(below(a, b) && below(b, a)),
        at_most(a, b) <==> (below(a, b) || same_value(a, b)),
{
}

/// Whether `b` is NaN.
pub fn is_nan(b: u64) -> (r: bool)
    ensures
        r == nan(b),
{
    abs(b) > INFINITY
}

/// Whether `b` is an infinity.
pub fn is_infinite(b: u64) -> (r: bool)
    ensures
        r == infinite(b),
{
    abs(b) == INFINITY
}

/// Whether `b` is neither NaN nor an infinity.
pub fn is_finite(b: u64) -> (r: bool)
    ensures
        r == finite(b),
{
    abs(b) < INFINITY
}

/// Whether the sign bit of `b` is set.
pub fn is_negative(b: u64) -> (r: bool)
    ensures
        r == negative(b),
{
    b >= SIGN_BIT
}

/// The absolute value: `b` with its sign bit cleared.
pub fn abs(b: u64) -> (r: u64)
    ensures
        r == magnitude_bits(b),
        !negative(r),
        magnitude(r) == magnitude(b),
        nan(r) == nan(b),
{
    if b >= SIGN_BIT {
        b - SIGN_BIT
    } else {
        b
    }
}

/// The order key of `b` as a machine integer.
pub fn order_key(b: u64) -> (r: i64)
    ensures
        r == key(b),
{
    let m = abs(b);
    if b >= SIGN_BIT {
        -(m as i64)
    } else {
        m as i64
    }
}

/// IEEE `a < b`.
pub fn lt(a: u64, b: u64) -> (r: bool)
    ensures
        r == below(a, b),
{
    proof {
        lemma_key_order(a, b);
    }
    !is_nan(a) && !is_nan(b) && order_key(a) < order_key(b)
}

/// IEEE `a <= b`.
pub fn le(a: u64, b: u64) -> (r: bool)
    ensures
        r == at_most(a, b),
{
    proof {
        lemma_key_order(a, b);
    }
    !is_nan(a) && !is_nan(b) && order_key(a) <= order_key(b)
}

/// IEEE `a == b`.
pub fn eq(a: u64, b: u64) -> (r: bool)
    ensures
        r == same_value(a, b),
{
    proof {
        lemma_key_order(a, b);
    }
    !is_nan(a) && !is_nan(b) && order_key(a) == order_key(b)
}

/// How many representable numbers apart `a` and `b` lie: the distance of
/// their order keys. Adjacent numbers are 1 apart, the two zeros 0.
pub open spec fn ulp_distance(a: u64, b: u64) -> nat {
    if key(a) >= key(b) {
        (key(a) - key(b)) as nat
    } else {
        (key(b) - key(a)) as nat
    }
}

/// Computes [`ulp_distance`].
pub fn ulps_apart(a: u64, b: u64) -> (d: u64)
    ensures
        d == ulp_distance(a, b),
{
    let ka: i128 = order_key(a) as i128;
    let kb: i128 = order_key(b) as i128;
    if ka >= kb {
        (ka - kb) as u64
    } else {
        (kb - ka) as u64
    }
}

} // verus!
