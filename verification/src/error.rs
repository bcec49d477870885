//! Why a solve stopped short, and what it had reached by then.

use vstd::prelude::*;
use crate::trajectory::Trajectory;

verus! {

/// The fatal conditions. A rejected step is not among them: rejections are
/// handled inside the solver and surface only through the limits below.
#[derive(Clone, Copy, Debug, PartialEq, Eq, Structural)]
pub enum ErrorKind {
    /// The step size fell below the smallest allowed one, or became too
    /// small to move the time at all.
    StepSizeUnderflow,
    /// More steps in a row were rejected than the configuration allows.
    MaxRejectionsExceeded,
    /// The budget of steps, accepted and rejected together, is used up.
    MaxStepsExceeded,
    /// A NaN or an infinity appeared in a candidate state or a derivative.
    NonFiniteState,
    /// The input was malformed; nothing was stepped.
    InvalidProblem,
}

/// A failed solve: the reason, the samples accepted before it, and the last
/// valid time and state, from which a caller may diagnose or restart.
#[derive(Debug)]
pub struct SolveError {
    pub kind: ErrorKind,
    pub trajectory: Trajectory,
    pub t: u64,
    pub y: Vec<u64>,
}

} // verus!
