//! The solver loop itself: one run of the state machine, driven from start
//! to end with the arithmetic that the caller supplies.

use vstd::prelude::*;
use crate::binary64::finite;
use crate::binary64::nan;
use crate::binary64::same_value;
use crate::config::SolverConfig;
use crate::error::ErrorKind;
use crate::error::SolveError;
use crate::problem::Problem;
use crate::solver::Integration;
use crate::solver::IntegrationView;
use crate::solver::Phase;
use crate::solver::StepReport;
use crate::solver::initial_view;
use crate::solver::records;
use crate::solver::sound_input;
use crate::state::all_finite;
use crate::trajectory::Trajectory;

verus! {

/// The arithmetic on reals that a solve needs. The caller implements it,
/// with the dynamical system and the Runge-Kutta tableau inside. Nothing is
/// assumed of what it returns; what it is handed is stated with each
/// method.
pub trait Stepper {
    /// The derivative of the system at `(t, y)`: asked once, at the start.
    fn derivative(&mut self, t: u64, y: &Vec<u64>) -> Vec<u64>
        requires
            finite(t),
            all_finite(y@),
    ;

    /// An estimate of a first step size that is neither wastefully small
    /// nor sure to be rejected, from the problem and the derivative at its
    /// start as [`Stepper::derivative`] gave it.
    fn initial_step(&mut self, t0: u64, tf: u64, y0: &Vec<u64>, derivative: &Vec<u64>) -> u64
        requires
            finite(t0),
            finite(tf),
            all_finite(y0@),
    ;

    /// The sum `t + h` of the current time and the next step size.
    fn advance(&mut self, t: u64, h: u64) -> u64
        requires
            finite(t),
            !nan(h),
    ;

    /// One candidate step from the last valid state `(t, y)` to the time
    /// `t_end`, which lies after `t`. `first_stage` is the derivative at
    /// `(t, y)`, of the dimension of `y`, and `h` the step size that was
    /// planned before `t_end` was fixed.
    fn step(&mut self, t: u64, y: &Vec<u64>, first_stage: &Vec<u64>, h: u64, t_end: u64) -> StepReport
        requires
            finite(t),
            finite(t_end),
            !same_value(t, t_end),
            all_finite(y@),
            all_finite(first_stage@),
            first_stage@.len() == y@.len(),
            !nan(h),
    ;
}

/// How much a run can still ask of the stepper: bounds the solver loop.
pub open spec fn remaining_work(v: IntegrationView) -> int {
    match v.phase {
        Phase::Init => 2 * (v.max_steps as int) + 3,
        Phase::Stepping => 2 * (v.max_steps - v.steps) + 1,
        Phase::Attempting => 2 * (v.max_steps - v.steps) + 2,
        _ => 0int,
    }
}

/// `b` is a later stage of the run `a`: same problem, same limits.
pub open spec fn same_run(a: IntegrationView, b: IntegrationView) -> bool {
    &&& a.forward == b.forward
    &&& a.t0 == b.t0
    &&& a.tf == b.tf
    &&& a.y0 == b.y0
    &&& a.h_min == b.h_min
    &&& a.h_max == b.h_max
    &&& a.max_rejections == b.max_rejections
    &&& a.max_steps == b.max_steps
    &&& a.initial_h == b.initial_h
}

/// Whatever the caller reports in the phase that wants it, the run stays the
/// same run and is left with strictly less to ask for: the loop ends.
pub proof fn lemma_every_answer_makes_progress(
    v: IntegrationView,
    derivative: Seq<u64>,
    h_estimate: u64,
    t_plus_h: u64,
    candidate: Seq<u64>,
    last_stage: Seq<u64>,
    error_norm: u64,
    h_scaled: u64,
)
    requires
        v.wf(),
    ensures
        same_run(v, v.after_prepared(derivative, h_estimate)),
        same_run(v, v.after_reach(t_plus_h)),
        same_run(v, v.after_stepped(candidate, last_stage, error_norm, h_scaled)),
        v.phase is Init ==> remaining_work(v.after_prepared(derivative, h_estimate))
            < remaining_work(v),
        v.phase is Stepping ==> remaining_work(v.after_reach(t_plus_h)) < remaining_work(v),
        v.phase is Attempting ==> remaining_work(
            v.after_stepped(candidate, last_stage, error_norm, h_scaled),
        ) < remaining_work(v),
{
}

/// Asks the stepper for what the run wants in its phase and hands the
/// answer to the run.
fn ask<S: Stepper>(stepper: &mut S, run: &mut Integration)
    requires
        old(run).wf(),
        old(run)@.active(),
    ensures
        final(run).wf(),
        same_run(old(run)@, final(run)@),
        remaining_work(final(run)@) < remaining_work(old(run)@),
{
    let ghost before = run@;
    match run.phase() {
        Phase::Init => {
            let derivative = stepper.derivative(run.t(), run.y());
            let h_estimate = stepper.initial_step(run.t(), run.tf(), run.y(), &derivative);
            proof {
                lemma_every_answer_makes_progress(
                    before,
                    derivative@,
                    h_estimate,
                    0,
                    Seq::empty(),
                    Seq::empty(),
                    0,
                    0,
                );
            }
            run.prepared(derivative, h_estimate);
        },
        Phase::Stepping => {
            let t_plus_h = stepper.advance(run.t(), run.h());
            proof {
                lemma_every_answer_makes_progress(
                    before,
                    Seq::empty(),
                    0,
                    t_plus_h,
                    Seq::empty(),
                    Seq::empty(),
                    0,
                    0,
                );
            }
            run.reach(t_plus_h);
        },
        _ => {
            let report = stepper.step(run.t(), run.y(), run.derivative(), run.h(), run.t_end());
            proof {
                lemma_every_answer_makes_progress(
                    before,
                    Seq::empty(),
                    0,
                    0,
                    report.candidate@,
                    report.last_stage@,
                    report.error_norm,
                    report.h_scaled,
                );
            }
            run.stepped(report);
        },
    }
}

/// Solves the problem with the given arithmetic: runs one [`Integration`]
/// from start to end, asking the stepper for what each phase wants.
///
/// Unsound input fails with `InvalidProblem` before the stepper is asked
/// anything. What happens on sound input is the stepper's to decide.
/// Whatever it reports, the trajectory that comes back [`records`] a
/// solution of the problem, in a success as in a failure, and holds no more
/// samples than steps were allowed. A success ends exactly at the end time;
/// a failure carries the last valid time and state, which are those of the
/// last sample, or of the start while there is none.
pub fn solve<S: Stepper>(stepper: &mut S, problem: Problem, config: &SolverConfig) -> (r: Result<
    Trajectory,
    SolveError,
>)
    ensures
        !sound_input(problem, *config) ==> (r matches Err(e) && {
            &&& e.kind == ErrorKind::InvalidProblem
            &&& e.trajectory@.times.len() == 0
            &&& e.t == problem.t0
            &&& e.y@ == problem.y0@
        }),
        r matches Ok(trajectory) ==> {
            &&& records(trajectory@, problem.forward(), problem.t0, problem.tf, problem.y0@.len())
            &&& 0 < trajectory@.times.len() <= config.max_steps
            &&& trajectory@.times.last() == problem.tf
        },
        r matches Err(e) ==> {
            &&& records(e.trajectory@, problem.forward(), problem.t0, problem.tf, problem.y0@.len())
            &&& e.trajectory@.times.len() <= config.max_steps
            &&& e.trajectory@.times.len() == 0 ==> e.t == problem.t0 && e.y@ == problem.y0@
            &&& e.trajectory@.times.len() > 0 ==> {
                &&& e.t == e.trajectory@.times.last()
                &&& e.y@ == e.trajectory@.states.last()
            }
        },
{
    let ghost start = initial_view(problem, *config);
    let mut run = Integration::begin(problem, config);
    while !run.is_terminated()
        invariant
            run.wf(),
            same_run(start, run@),
            start.phase is Init || (run@ == start && start.phase.terminated()),
        decreases remaining_work(run@),
    {
        ask(stepper, &mut run);
    }
    run.conclude()
}

} // verus!
