//! The step controller's decisions: is an error estimate acceptable, and
//! which step size is allowed next.
//!
//! The controller's formula is
//! `h_next = h * clamp(SAFETY * norm^(-1/(ORDER + 1)), SHRINK_MIN, GROW_MAX)`,
//! then forced into the configured limits and given the direction of
//! integration. Powers and products of reals are the caller's; the
//! comparisons, the two clamps and the sign are decided here.

use vstd::prelude::*;
use crate::binary64::ONE;
use crate::binary64::SIGN_BIT;
use crate::binary64::abs;
use crate::binary64::abs_of;
use crate::binary64::at_most;
use crate::binary64::below;
use crate::binary64::magnitude_bits;
use crate::binary64::le;
use crate::binary64::lt;
use crate::binary64::magnitude;
use crate::binary64::nan;
use crate::binary64::negative;
use crate::binary64::lemma_magnitude_order;
use vstd::arithmetic::power2::pow2;
use vstd::arithmetic::power2::lemma_pow2_adds;
use vstd::arithmetic::power2::lemma2_to64;
use vstd::arithmetic::power2::lemma2_to64_rest;

verus! {

/// Order of the method whose error estimates are judged here.
pub const ORDER: u32 = 8;

/// The pattern of 0.9, the safety factor of the step-size formula.
pub const SAFETY: u64 = 0x3fec_cccc_cccc_cccd;

/// The pattern of 0.2: a step never shrinks by more than this factor.
pub const SHRINK_MIN: u64 = 0x3fc9_9999_9999_999a;

/// The pattern of 10.0: a step never grows by more than this factor.
pub const GROW_MAX: u64 = 0x4024_0000_0000_0000;

/// What the constants denote. With 2^1074 as the unit in which every
/// number is an integer: `ONE` is 1 and `GROW_MAX` is 10 exactly;
/// `SHRINK_MIN` and `SAFETY` are one fifth and nine tenths rounded to the
/// nearest binary64 number, each a little above.
pub proof fn lemma_constants_denote()
    ensures
        magnitude(ONE) == pow2(1074),
        magnitude(GROW_MAX) == 10 * pow2(1074),
        5 * magnitude(SHRINK_MIN) == pow2(1074) + 2 * pow2(1019),
        10 * magnitude(SAFETY) == 9 * pow2(1074) + 2 * pow2(1021),
{
    lemma2_to64();
    lemma2_to64_rest();
    let unit = pow2(1019) as int;
    lemma_pow2_adds(1, 1019);
    lemma_pow2_adds(2, 1019);
    lemma_pow2_adds(3, 1019);
    lemma_pow2_adds(6, 1019);
    lemma_pow2_adds(55, 1019);
    // 1 = 2^52 * 2^1022
    assert(0x10_0000_0000_0000 * (8 * unit) == 0x80_0000_0000_0000 * unit) by (nonlinear_arith);
    // 10 = (2^52 + 2^50) * 2^1025
    assert(0x14_0000_0000_0000 * (64 * unit) == 10 * (0x80_0000_0000_0000 * unit))
        by (nonlinear_arith);
    // the significand of SHRINK_MIN, five times, is 2^55 + 2
    assert(5 * (0x19_9999_9999_999a * unit) == 0x80_0000_0000_0000 * unit + 2 * unit)
        by (nonlinear_arith);
    // the significand of SAFETY, ten times, is 9 * 2^53 + 2
    assert(10 * (0x1c_cccc_cccc_cccd * (4 * unit)) == 9 * (0x80_0000_0000_0000 * unit) + 2 * (4
        * unit)) by (nonlinear_arith);
}

/// `v` clamped into `lo..=hi`.
pub open spec fn clamped(v: int, lo: int, hi: int) -> int {
    if v < lo {
        lo
    } else if v > hi {
        hi
    } else {
        v
    }
}

/// A step is accepted exactly when its error norm is at most 1. A NaN norm
/// is never acceptable.
pub open spec fn tolerable(norm: u64) -> bool {
    at_most(norm, ONE)
}

/// `factor` forced into `SHRINK_MIN..=GROW_MAX`.
pub open spec fn limited_factor(factor: u64) -> u64 {
    if below(factor, SHRINK_MIN) {
        SHRINK_MIN
    } else if below(GROW_MAX, factor) {
        GROW_MAX
    } else {
        factor
    }
}

/// `h` is a step size the solver may take: a number that points in the
/// direction of integration and whose absolute value lies within
/// `h_min..=h_max`.
pub open spec fn allowed_step(h: u64, h_min: u64, h_max: u64, forward: bool) -> bool {
    &&& !nan(h)
    &&& negative(h) == !forward
    &&& magnitude(h_min) <= magnitude(h) <= magnitude(h_max)
}

/// The step size that [`limit_step`] allows in place of the proposal `h`,
/// pattern by pattern: the magnitude bits of `h` forced between those of
/// `h_min` and `h_max`, under the sign of the direction.
pub open spec fn limited_step(h: u64, h_min: u64, h_max: u64, forward: bool) -> u64 {
    let m = magnitude_bits(h);
    let c = if m < h_min {
        h_min
    } else if m > h_max {
        h_max
    } else {
        m
    };
    if forward {
        c
    } else {
        (c + SIGN_BIT) as u64
    }
}

/// Decides [`tolerable`].
pub fn accepts(norm: u64) -> (r: bool)
    ensures
        r == tolerable(norm),
{
    le(norm, ONE)
}

/// Computes [`limited_factor`]: the inner clamp of the step-size formula. A
/// NaN passes through unchanged; an infinite factor, as a zero error norm
/// gives, becomes `GROW_MAX`.
pub fn limit_factor(factor: u64) -> (r: u64)
    ensures
        r == limited_factor(factor),
{
    if lt(factor, SHRINK_MIN) {
        SHRINK_MIN
    } else if lt(GROW_MAX, factor) {
        GROW_MAX
    } else {
        factor
    }
}

/// The outer clamp of the step-size formula: forces the absolute value of
/// the proposed step `h` into `h_min..=h_max` and points the result in the
/// direction of integration.
pub fn limit_step(h: u64, h_min: u64, h_max: u64, forward: bool) -> (r: u64)
    requires
        !nan(h),
        !negative(h_min),
        !negative(h_max),
        at_most(h_min, h_max),
    ensures
        r == limited_step(h, h_min, h_max, forward),
        allowed_step(r, h_min, h_max, forward),
        magnitude(r) == clamped(
            magnitude(h) as int,
            magnitude(h_min) as int,
            magnitude(h_max) as int,
        ),
        allowed_step(h, h_min, h_max, forward) ==> r == h,
{
    let m = abs(h);
    proof {
        lemma_magnitude_order(m, h_min);
        lemma_magnitude_order(m, h_max);
        lemma_magnitude_order(h_min, h_max);
    }
    let c = if m < h_min {
        h_min
    } else if m > h_max {
        h_max
    } else {
        m
    };
    if forward {
        c
    } else {
        c + SIGN_BIT
    }
}

/// What [`limited_step`] gives is an allowed step, whatever was proposed.
pub proof fn lemma_limited_step_allowed(h: u64, h_min: u64, h_max: u64, forward: bool)
    requires
        !negative(h_min),
        !negative(h_max),
        at_most(h_min, h_max),
    ensures
        allowed_step(limited_step(h, h_min, h_max, forward), h_min, h_max, forward),
{
    let r = limited_step(h, h_min, h_max, forward);
    lemma_magnitude_order(h_min, h_max);
    lemma_magnitude_order(h_min, r);
    lemma_magnitude_order(r, h_max);
}

/// Whether a rejected step's proposal `h` has fallen below the smallest
/// allowed step size.
pub fn underflows(h: u64, h_min: u64) -> (r: bool)
    ensures
        r == below(abs_of(h), h_min),
{
    lt(abs(h), h_min)
}

} // verus!
