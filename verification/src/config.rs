//! Solver options, fixed up front and handed to the solver as one value.

use vstd::prelude::*;
use crate::binary64::ZERO;
use crate::binary64::at_most;
use crate::binary64::finite;
use crate::binary64::is_finite;
use crate::binary64::is_nan;
use crate::binary64::le;
use crate::binary64::nan;

verus! {

/// A tolerance: one number for every component, or one number per component.
#[derive(Clone, Debug)]
pub enum Tolerance {
    Scalar(u64),
    PerComponent(Vec<u64>),
}

/// A number that can serve as a tolerance: finite and not below zero.
pub open spec fn tolerance_value(x: u64) -> bool {
    finite(x) && at_most(ZERO, x)
}

/// Decides [`tolerance_value`].
pub fn is_tolerance_value(x: u64) -> (r: bool)
    ensures
        r == tolerance_value(x),
{
    is_finite(x) && le(ZERO, x)
}

/// Whether every component of `v` is a tolerance value.
fn are_tolerance_values(v: &Vec<u64>) -> (r: bool)
    ensures
        r == forall|i: int| 0 <= i < v@.len() ==> tolerance_value(#[trigger] v@[i]),
{
    let mut i: usize = 0;
    while i < v.len()
        invariant
            i <= v.len(),
            forall|j: int| 0 <= j < i ==> tolerance_value(#[trigger] v@[j]),
        decreases v.len() - i,
    {
        if !is_tolerance_value(v[i]) {
            assert(!tolerance_value(v@[i as int]));
            return false;
        }
        i += 1;
    }
    true
}

impl Tolerance {
    /// The tolerance can be applied to a state of `dimension` components: a
    /// scalar is a tolerance value; a list has that length and holds
    /// tolerance values only.
    pub open spec fn valid_for(&self, dimension: nat) -> bool {
        match self {
            Tolerance::Scalar(x) => tolerance_value(*x),
            Tolerance::PerComponent(v) => v@.len() == dimension && forall|i: int|
                0 <= i < v@.len() ==> tolerance_value(#[trigger] v@[i]),
        }
    }

    /// Decides [`Tolerance::valid_for`].
    pub fn check_valid_for(&self, dimension: usize) -> (r: bool)
        ensures
            r == self.valid_for(dimension as nat),
    {
        match self {
            Tolerance::Scalar(x) => is_tolerance_value(*x),
            Tolerance::PerComponent(v) => v.len() == dimension && are_tolerance_values(v),
        }
    }
}

/// Every option the solver recognises. Real-valued options are binary64
/// patterns.
#[derive(Clone, Debug)]
pub struct SolverConfig {
    /// Relative tolerance.
    pub rtol: Tolerance,
    /// Absolute tolerance.
    pub atol: Tolerance,
    /// Smallest step size, as an absolute value.
    pub h_min: u64,
    /// Largest step size, as an absolute value; may be infinite.
    pub h_max: u64,
    /// How many step rejections in a row are tolerated.
    pub max_rejections: usize,
    /// How many steps, accepted or rejected, may be attempted in all.
    pub max_steps: usize,
    /// Size of the first step; estimated from the problem when absent.
    pub initial_h: Option<u64>,
}

impl SolverConfig {
    /// The one constructor: every option is given explicitly.
    pub fn new(
        rtol: Tolerance,
        atol: Tolerance,
        h_min: u64,
        h_max: u64,
        max_rejections: usize,
        max_steps: usize,
        initial_h: Option<u64>,
    ) -> (c: SolverConfig)
        ensures
            c.rtol == rtol,
            c.atol == atol,
            c.h_min == h_min,
            c.h_max == h_max,
            c.max_rejections == max_rejections,
            c.max_steps == max_steps,
            c.initial_h == initial_h,
    {
        SolverConfig { rtol, atol, h_min, h_max, max_rejections, max_steps, initial_h }
    }

    /// The step-size limits are usable: `0 <= h_min <= h_max`, neither NaN.
    pub open spec fn limits_ok(&self) -> bool {
        at_most(ZERO, self.h_min) && at_most(self.h_min, self.h_max)
    }

    /// The options can be used on a state of `dimension` components: both
    /// tolerances are valid for it, the limits are usable, and a first step
    /// size, if one is given, is not NaN.
    pub open spec fn valid_for(&self, dimension: nat) -> bool {
        &&& self.rtol.valid_for(dimension)
        &&& self.atol.valid_for(dimension)
        &&& self.limits_ok()
        &&& (self.initial_h matches Some(h) ==> !nan(h))
    }

    /// Decides [`SolverConfig::limits_ok`].
    pub fn check_limits(&self) -> (r: bool)
        ensures
            r == self.limits_ok(),
    {
        le(ZERO, self.h_min) && le(self.h_min, self.h_max)
    }

    /// Decides [`SolverConfig::valid_for`].
    pub fn check_valid_for(&self, dimension: usize) -> (r: bool)
        ensures
            r == self.valid_for(dimension as nat),
    {
        let first_ok = match self.initial_h {
            Some(h) => !is_nan(h),
            None => true,
        };
        self.rtol.check_valid_for(dimension) && self.atol.check_valid_for(dimension)
            && self.check_limits() && first_ok
    }
}

} // verus!
