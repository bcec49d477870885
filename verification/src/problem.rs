//! The initial-value problem: where to start, where to stop, and from what.

use vstd::prelude::*;
use crate::binary64::below;
use crate::binary64::finite;
use crate::binary64::is_finite;
use crate::binary64::lt;
use crate::state::all_finite;
use crate::state::is_all_finite;

verus! {

/// Start time, end time and initial state. The dynamical system itself stays
/// with the caller, who evaluates it on request.
#[derive(Clone, Debug)]
pub struct Problem {
    pub t0: u64,
    pub tf: u64,
    pub y0: Vec<u64>,
}

impl Problem {
    /// The one constructor.
    pub fn new(t0: u64, tf: u64, y0: Vec<u64>) -> (p: Problem)
        ensures
            p.t0 == t0,
            p.tf == tf,
            p.y0 == y0,
    {
        Problem { t0, tf, y0 }
    }

    /// Both end points are finite and differ, and the initial state is
    /// finite in every component.
    pub open spec fn valid(&self) -> bool {
        &&& finite(self.t0)
        &&& finite(self.tf)
        &&& (below(self.t0, self.tf) || below(self.tf, self.t0))
        &&& all_finite(self.y0@)
    }

    /// Time runs upward: the end lies after the start.
    pub open spec fn forward(&self) -> bool {
        below(self.t0, self.tf)
    }

    /// Decides [`Problem::valid`].
    pub fn check_valid(&self) -> (r: bool)
        ensures
            r == self.valid(),
    {
        is_finite(self.t0) && is_finite(self.tf) && (lt(self.t0, self.tf) || lt(self.tf, self.t0))
            && is_all_finite(&self.y0)
    }

    /// Decides [`Problem::forward`].
    pub fn is_forward(&self) -> (r: bool)
        ensures
            r == self.forward(),
    {
        lt(self.t0, self.tf)
    }
}

} // verus!
