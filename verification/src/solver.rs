//! The solver loop as a state machine.
//!
//! An [`Integration`] holds everything the loop knows and decides what
//! becomes of each thing the caller reports. The caller owns the arithmetic
//! on reals: it evaluates the dynamical system, adds a step to a time and
//! runs the Runge-Kutta stages. The machine owns the decisions: whether the
//! input is sound, where a step has to end, whether it is accepted, which
//! step size comes next, what is recorded, and when and how the run ends.
//!
//! One run moves through the phases
//! `Init -> Stepping <-> Attempting -> Success | Failure`. The loop that
//! drives a run from start to end is [`crate::driver::solve`].

use vstd::prelude::*;
use crate::binary64::ZERO;
use crate::binary64::abs;
use crate::binary64::abs_of;
use crate::binary64::at_most;
use crate::binary64::below;
use crate::binary64::finite;
use crate::binary64::is_nan;
use crate::binary64::lemma_between_finite;
use crate::binary64::lemma_magnitude_order;
use crate::binary64::lemma_magnitude_zero;
use crate::binary64::nan;
use crate::binary64::negative;
use crate::binary64::ulp_distance;
use crate::binary64::ulps_apart;
use crate::config::SolverConfig;
use crate::controller::accepts;
use crate::controller::allowed_step;
use crate::controller::limit_step;
use crate::controller::lemma_limited_step_allowed;
use crate::controller::limited_step;
use crate::controller::tolerable;
use crate::controller::underflows;
use crate::error::ErrorKind;
use crate::error::SolveError;
use crate::problem::Problem;
use crate::state::all_finite;
use crate::state::copy_components;
use crate::state::is_all_finite;
use crate::trajectory::Trajectory;
use crate::trajectory::TrajectoryView;
use crate::trajectory::comes_before;
use crate::trajectory::not_after;
use crate::trajectory::precedes;

verus! {

/// A step that would end within this many representable numbers of the end
/// time is stretched to end exactly there.
pub const CLOSING_ULPS: u64 = 16;

/// Where a run stands.
#[derive(Clone, Copy, Debug, PartialEq, Eq, Structural)]
pub enum Phase {
    /// The input was sound. Wanted: the derivative at the start and an
    /// estimate of the first step size.
    Init,
    /// Between steps. Wanted: the time that the next step would reach.
    Stepping,
    /// A step is under way. Wanted: the stepper's report.
    Attempting,
    /// The end time was reached.
    Success,
    /// The run stopped for good, short of the end time.
    Failure(ErrorKind),
}

impl Phase {
    /// The run is over.
    pub open spec fn terminated(self) -> bool {
        self is Success || self is Failure
    }
}

/// What the stepper found for one candidate step.
#[derive(Debug)]
pub struct StepReport {
    /// The high-order estimate of the state at the end of the step.
    pub candidate: Vec<u64>,
    /// The derivative at the candidate: the last stage, which an accepted
    /// step hands on as the first stage of the next.
    pub last_stage: Vec<u64>,
    /// The scalar error norm of the step.
    pub error_norm: u64,
    /// The step size times the controller's factor, before the limits.
    pub h_scaled: u64,
}

/// `trajectory` records a solution of a problem that runs from `t0` to `tf`
/// on states of `dimension` components: its times run strictly in the
/// direction of integration, each after `t0` and none after `tf`, and each
/// of its states is finite and of that dimension.
pub open spec fn records(trajectory: TrajectoryView, forward: bool, t0: u64, tf: u64, dimension: nat) -> bool {
    &&& trajectory.wf()
    &&& trajectory.forward == forward
    &&& forall|i: int|
        0 <= i < trajectory.times.len() ==> {
            &&& precedes(forward, t0, #[trigger] trajectory.times[i])
            &&& not_after(forward, trajectory.times[i], tf)
        }
    &&& forall|i: int|
        0 <= i < trajectory.states.len() ==> {
            &&& (#[trigger] trajectory.states[i]).len() == dimension
            &&& all_finite(trajectory.states[i])
        }
}

/// What an [`Integration`] is, mathematically.
pub struct IntegrationView {
    pub phase: Phase,
    /// Whether time runs upward.
    pub forward: bool,
    pub t0: u64,
    pub tf: u64,
    pub y0: Seq<u64>,
    pub h_min: u64,
    pub h_max: u64,
    pub max_rejections: nat,
    pub max_steps: nat,
    pub initial_h: Option<u64>,
    /// Time of the last valid state.
    pub t: u64,
    /// Derivative at the last valid state.
    pub derivative: Seq<u64>,
    /// Size of the next step.
    pub h: u64,
    /// Where the step under way ends.
    pub t_end: u64,
    /// Whether the step under way ends at the end time.
    pub closing: bool,
    /// Rejections since the last accepted step.
    pub rejections: nat,
    /// Steps attempted so far, accepted or not.
    pub steps: nat,
    pub trajectory: TrajectoryView,
}

impl IntegrationView {
    /// The last valid state: that of the latest sample, or the initial state
    /// while there is none.
    pub open spec fn y(self) -> Seq<u64> {
        if self.trajectory.times.len() > 0 {
            self.trajectory.states.last()
        } else {
            self.y0
        }
    }

    /// The run is still going.
    pub open spec fn active(self) -> bool {
        !self.phase.terminated()
    }

    /// What holds of every run in every phase.
    pub open spec fn wf(self) -> bool {
        &&& records(self.trajectory, self.forward, self.t0, self.tf, self.y0.len())
        &&& self.trajectory.times.len() == 0 ==> self.t == self.t0
        &&& self.trajectory.times.len() > 0 ==> self.t == self.trajectory.times.last()
        &&& self.trajectory.times.len() <= self.steps <= self.max_steps
        &&& self.active() ==> {
            &&& finite(self.t)
            &&& finite(self.tf)
            &&& all_finite(self.y())
            &&& precedes(self.forward, self.t, self.tf)
            &&& !negative(self.h_min)
            &&& !negative(self.h_max)
            &&& at_most(self.h_min, self.h_max)
            &&& self.rejections <= self.max_rejections
        }
        &&& self.phase is Init ==> self.steps == 0
        &&& (self.phase is Stepping || self.phase is Attempting) ==> {
            &&& self.derivative.len() == self.y().len()
            &&& all_finite(self.derivative)
            &&& allowed_step(self.h, self.h_min, self.h_max, self.forward)
        }
        &&& self.phase is Attempting ==> {
            &&& finite(self.t_end)
            &&& precedes(self.forward, self.t, self.t_end)
            &&& (self.closing <==> self.t_end == self.tf)
            &&& !self.closing ==> precedes(self.forward, self.t_end, self.tf)
            &&& self.trajectory.times.len() < self.steps
        }
        &&& self.phase is Success ==> {
            &&& self.trajectory.times.len() > 0
            &&& self.t == self.tf
        }
    }

    /// The same run, stopped for the reason `kind`.
    pub open spec fn failed(self, kind: ErrorKind) -> IntegrationView {
        IntegrationView { phase: Phase::Failure(kind), ..self }
    }

    /// A step that would reach `t_plus_h` has to end at the end time
    /// instead: it would arrive there, pass it, or stop within
    /// [`CLOSING_ULPS`] of it.
    pub open spec fn closes(self, t_plus_h: u64) -> bool {
        !precedes(self.forward, t_plus_h, self.tf) || ulp_distance(t_plus_h, self.tf) <= CLOSING_ULPS
    }

    /// The run after the caller reported the derivative at the start and
    /// its estimate of the first step size.
    ///
    /// Outside `Init` nothing changes. A derivative of another dimension
    /// than the initial state is an invalid problem; a non-finite derivative,
    /// or a NaN step size, a non-finite state. Otherwise stepping begins
    /// with the configured first step size, or else the estimate, forced
    /// into the limits and pointed in the direction of integration.
    pub open spec fn after_prepared(self, derivative: Seq<u64>, h_estimate: u64) -> IntegrationView {
        let h_first = match self.initial_h {
            Some(h) => h,
            None => h_estimate,
        };
        if !(self.phase is Init) {
            self
        } else if derivative.len() != self.y0.len() {
            self.failed(ErrorKind::InvalidProblem)
        } else if !all_finite(derivative) || nan(h_first) {
            self.failed(ErrorKind::NonFiniteState)
        } else {
            IntegrationView {
                phase: Phase::Stepping,
                derivative: derivative,
                h: limited_step(h_first, self.h_min, self.h_max, self.forward),
                ..self
            }
        }
    }

    /// The run after the caller reported `t_plus_h`, the sum of the current
    /// time and the next step size.
    ///
    /// Outside `Stepping` nothing changes. With the budget of steps used up
    /// the run fails; so it does when the sum is NaN, and when the sum does
    /// not lie after the current time, the step being too small to count.
    /// Otherwise a step is under way: to the end time if the sum
    /// [`closes`](Self::closes), else to the sum.
    pub open spec fn after_reach(self, t_plus_h: u64) -> IntegrationView {
        if !(self.phase is Stepping) {
            self
        } else if self.steps >= self.max_steps {
            self.failed(ErrorKind::MaxStepsExceeded)
        } else if nan(t_plus_h) {
            self.failed(ErrorKind::NonFiniteState)
        } else if !precedes(self.forward, self.t, t_plus_h) {
            self.failed(ErrorKind::StepSizeUnderflow)
        } else {
            IntegrationView {
                phase: Phase::Attempting,
                t_end: if self.closes(t_plus_h) {
                    self.tf
                } else {
                    t_plus_h
                },
                closing: self.closes(t_plus_h),
                steps: self.steps + 1,
                ..self
            }
        }
    }

    /// The report cannot be used: a vector of it has another dimension than
    /// the state.
    pub open spec fn misfit(self, candidate: Seq<u64>, last_stage: Seq<u64>) -> bool {
        candidate.len() != self.y().len() || last_stage.len() != self.y().len()
    }

    /// The run after the stepper's report on the step under way.
    ///
    /// Outside `Attempting` nothing changes. A report of another dimension
    /// is an invalid problem. A candidate or a last stage that is not
    /// finite, a NaN error norm or a NaN step size ends the run at once as a
    /// non-finite state, the last valid state kept.
    ///
    /// A tolerable error norm accepts the step: the candidate is recorded at
    /// the step's end, becomes the current state, its last stage the current
    /// derivative, and the rejection count starts over; a closing step ends
    /// the run in success. Any other norm rejects it: nothing moves, and the
    /// run fails if the proposed step size has fallen below the smallest
    /// allowed one, or if this was one rejection too many. Either way the
    /// next step size is the proposed one within the limits.
    pub open spec fn after_stepped(
        self,
        candidate: Seq<u64>,
        last_stage: Seq<u64>,
        error_norm: u64,
        h_scaled: u64,
    ) -> IntegrationView {
        if !(self.phase is Attempting) {
            self
        } else if self.misfit(candidate, last_stage) {
            self.failed(ErrorKind::InvalidProblem)
        } else if !all_finite(candidate) || !all_finite(last_stage) || nan(error_norm) || nan(
            h_scaled,
        ) {
            self.failed(ErrorKind::NonFiniteState)
        } else if tolerable(error_norm) {
            IntegrationView {
                phase: if self.closing {
                    Phase::Success
                } else {
                    Phase::Stepping
                },
                t: self.t_end,
                derivative: last_stage,
                h: limited_step(h_scaled, self.h_min, self.h_max, self.forward),
                rejections: 0,
                trajectory: self.trajectory.push(self.t_end, candidate),
                ..self
            }
        } else if below(abs_of(h_scaled), self.h_min) {
            self.failed(ErrorKind::StepSizeUnderflow)
        } else if self.rejections >= self.max_rejections {
            self.failed(ErrorKind::MaxRejectionsExceeded)
        } else {
            IntegrationView {
                phase: Phase::Stepping,
                h: limited_step(h_scaled, self.h_min, self.h_max, self.forward),
                rejections: self.rejections + 1,
                ..self
            }
        }
    }
}

/// The input of a solve is sound: the problem is valid, and the options are
/// valid for the dimension of its initial state.
pub open spec fn sound_input(problem: Problem, config: SolverConfig) -> bool {
    problem.valid() && config.valid_for(problem.y0@.len())
}

/// What a run starts as: sound input in `Init`, any other as a failure
/// with `InvalidProblem`; nothing recorded, at the start time.
pub open spec fn initial_view(problem: Problem, config: SolverConfig) -> IntegrationView {
    IntegrationView {
        phase: if sound_input(problem, config) {
            Phase::Init
        } else {
            Phase::Failure(ErrorKind::InvalidProblem)
        },
        forward: problem.forward(),
        t0: problem.t0,
        tf: problem.tf,
        y0: problem.y0@,
        h_min: abs_of(config.h_min),
        h_max: abs_of(config.h_max),
        max_rejections: config.max_rejections as nat,
        max_steps: config.max_steps as nat,
        initial_h: config.initial_h,
        t: problem.t0,
        derivative: Seq::empty(),
        h: ZERO,
        t_end: problem.t0,
        closing: false,
        rejections: 0,
        steps: 0,
        trajectory: TrajectoryView { forward: problem.forward(), times: Seq::empty(), states: Seq::empty() },
    }
}

/// One run of the solver loop.
#[derive(Debug)]
pub struct Integration {
    phase: Phase,
    forward: bool,
    t0: u64,
    tf: u64,
    y0: Vec<u64>,
    h_min: u64,
    h_max: u64,
    max_rejections: usize,
    max_steps: usize,
    initial_h: Option<u64>,
    t: u64,
    derivative: Vec<u64>,
    h: u64,
    t_end: u64,
    closing: bool,
    rejections: usize,
    steps: usize,
    trajectory: Trajectory,
}

impl View for Integration {
    type V = IntegrationView;

    closed spec fn view(&self) -> IntegrationView {
        IntegrationView {
            phase: self.phase,
            forward: self.forward,
            t0: self.t0,
            tf: self.tf,
            y0: self.y0@,
            h_min: self.h_min,
            h_max: self.h_max,
            max_rejections: self.max_rejections as nat,
            max_steps: self.max_steps as nat,
            initial_h: self.initial_h,
            t: self.t,
            derivative: self.derivative@,
            h: self.h,
            t_end: self.t_end,
            closing: self.closing,
            rejections: self.rejections as nat,
            steps: self.steps as nat,
            trajectory: self.trajectory@,
        }
    }
}

impl Integration {
    /// The invariant of the type: see [`IntegrationView::wf`].
    pub open spec fn wf(&self) -> bool {
        self@.wf()
    }

    /// Validates the input and starts a run: see [`initial_view`].
    pub fn begin(problem: Problem, config: &SolverConfig) -> (r: Integration)
        ensures
            r.wf(),
            r@ == initial_view(problem, *config),
    {
        let sound = problem.check_valid() && config.check_valid_for(problem.y0.len());
        let forward = problem.is_forward();
        let r = Integration {
            phase: if sound {
                Phase::Init
            } else {
                Phase::Failure(ErrorKind::InvalidProblem)
            },
            forward,
            t0: problem.t0,
            tf: problem.tf,
            y0: problem.y0,
            h_min: abs(config.h_min),
            h_max: abs(config.h_max),
            max_rejections: config.max_rejections,
            max_steps: config.max_steps,
            initial_h: config.initial_h,
            t: problem.t0,
            derivative: Vec::new(),
            h: ZERO,
            t_end: problem.t0,
            closing: false,
            rejections: 0,
            steps: 0,
            trajectory: Trajectory::new(forward),
        };
        proof {
            assert(r@.trajectory.times =~= Seq::<u64>::empty());
            assert(r@.trajectory.states =~= Seq::<Seq<u64>>::empty());
            assert(r@.derivative =~= Seq::<u64>::empty());
            if sound {
                lemma_magnitude_order(config.h_min, abs_of(config.h_min));
                lemma_magnitude_order(config.h_max, abs_of(config.h_max));
                lemma_magnitude_zero(config.h_min);
            }
        }
        r
    }

    /// Where the run stands.
    pub fn phase(&self) -> (r: Phase)
        ensures
            r == self@.phase,
    {
        self.phase
    }

    /// Whether the run is over.
    pub fn is_terminated(&self) -> (r: bool)
        ensures
            r == self@.phase.terminated(),
    {
        match self.phase {
            Phase::Success => true,
            Phase::Failure(_) => true,
            _ => false,
        }
    }

    /// Whether time runs upward.
    pub fn is_forward(&self) -> (r: bool)
        ensures
            r == self@.forward,
    {
        self.forward
    }

    /// The end time.
    pub fn tf(&self) -> (r: u64)
        ensures
            r == self@.tf,
    {
        self.tf
    }

    /// Time of the last valid state.
    pub fn t(&self) -> (r: u64)
        ensures
            r == self@.t,
    {
        self.t
    }

    /// The last valid state.
    pub fn y(&self) -> (r: &Vec<u64>)
        ensures
            r@ == self@.y(),
    {
        match self.trajectory.last() {
            Some(p) => &p.y,
            None => &self.y0,
        }
    }

    /// Derivative at the last valid state: the first stage of the next step.
    pub fn derivative(&self) -> (r: &Vec<u64>)
        ensures
            r@ == self@.derivative,
    {
        &self.derivative
    }

    /// Size of the next step.
    pub fn h(&self) -> (r: u64)
        ensures
            r == self@.h,
    {
        self.h
    }

    /// Where the step under way ends.
    pub fn t_end(&self) -> (r: u64)
        ensures
            r == self@.t_end,
    {
        self.t_end
    }

    /// Whether the step under way ends at the end time.
    pub fn is_closing(&self) -> (r: bool)
        ensures
            r == self@.closing,
    {
        self.closing
    }

    /// Rejections since the last accepted step.
    pub fn rejections(&self) -> (r: usize)
        ensures
            r == self@.rejections,
    {
        self.rejections
    }

    /// Steps attempted so far.
    pub fn steps(&self) -> (r: usize)
        ensures
            r == self@.steps,
    {
        self.steps
    }

    /// The samples accepted so far.
    pub fn trajectory(&self) -> (r: &Trajectory)
        ensures
            r@ == self@.trajectory,
    {
        &self.trajectory
    }

    /// Takes the derivative at the start and the estimate of the first step
    /// size: see [`IntegrationView::after_prepared`].
    pub fn prepared(&mut self, derivative: Vec<u64>, h_estimate: u64) -> (r: Phase)
        requires
            old(self).wf(),
        ensures
            final(self).wf(),
            final(self)@ == old(self)@.after_prepared(derivative@, h_estimate),
            r == final(self)@.phase,
    {
        match self.phase {
            Phase::Init => {},
            _ => {
                return self.phase;
            },
        }
        let h_first = match self.initial_h {
            Some(h) => h,
            None => h_estimate,
        };
        if derivative.len() != self.y0.len() {
            self.phase = Phase::Failure(ErrorKind::InvalidProblem);
        } else if !is_all_finite(&derivative) || is_nan(h_first) {
            self.phase = Phase::Failure(ErrorKind::NonFiniteState);
        } else {
            self.h = limit_step(h_first, self.h_min, self.h_max, self.forward);
            self.derivative = derivative;
            self.phase = Phase::Stepping;
        }
        self.phase
    }

    /// Takes the sum of the current time and the next step size: see
    /// [`IntegrationView::after_reach`].
    pub fn reach(&mut self, t_plus_h: u64) -> (r: Phase)
        requires
            old(self).wf(),
        ensures
            final(self).wf(),
            final(self)@ == old(self)@.after_reach(t_plus_h),
            r == final(self)@.phase,
    {
        match self.phase {
            Phase::Stepping => {},
            _ => {
                return self.phase;
            },
        }
        if self.steps >= self.max_steps {
            self.phase = Phase::Failure(ErrorKind::MaxStepsExceeded);
        } else if is_nan(t_plus_h) {
            self.phase = Phase::Failure(ErrorKind::NonFiniteState);
        } else if !comes_before(self.forward, self.t, t_plus_h) {
            self.phase = Phase::Failure(ErrorKind::StepSizeUnderflow);
        } else {
            let closing = !comes_before(self.forward, t_plus_h, self.tf) || ulps_apart(
                t_plus_h,
                self.tf,
            ) <= CLOSING_ULPS;
            self.closing = closing;
            self.t_end = if closing {
                self.tf
            } else {
                t_plus_h
            };
            self.steps = self.steps + 1;
            self.phase = Phase::Attempting;
            proof {
                if !closing {
                    if self.forward {
                        lemma_between_finite(self.t, t_plus_h, self.tf);
                    } else {
                        lemma_between_finite(self.tf, t_plus_h, self.t);
                    }
                }
            }
        }
        self.phase
    }

    /// Takes the stepper's report on the step under way: see
    /// [`IntegrationView::after_stepped`].
    pub fn stepped(&mut self, report: StepReport) -> (r: Phase)
        requires
            old(self).wf(),
        ensures
            final(self).wf(),
            final(self)@ == old(self)@.after_stepped(
                report.candidate@,
                report.last_stage@,
                report.error_norm,
                report.h_scaled,
            ),
            r == final(self)@.phase,
    {
        match self.phase {
            Phase::Attempting => {},
            _ => {
                return self.phase;
            },
        }
        let StepReport { candidate, last_stage, error_norm, h_scaled } = report;
        let dimension = self.y().len();
        if candidate.len() != dimension || last_stage.len() != dimension {
            self.phase = Phase::Failure(ErrorKind::InvalidProblem);
        } else if !is_all_finite(&candidate) || !is_all_finite(&last_stage) || is_nan(error_norm)
            || is_nan(h_scaled) {
            self.phase = Phase::Failure(ErrorKind::NonFiniteState);
        } else if accepts(error_norm) {
            let appended = self.trajectory.push(self.t_end, candidate);
            assert(appended);
            self.t = self.t_end;
            self.derivative = last_stage;
            self.h = limit_step(h_scaled, self.h_min, self.h_max, self.forward);
            self.rejections = 0;
            self.phase = if self.closing {
                Phase::Success
            } else {
                Phase::Stepping
            };
        } else if underflows(h_scaled, self.h_min) {
            self.phase = Phase::Failure(ErrorKind::StepSizeUnderflow);
        } else if self.rejections >= self.max_rejections {
            self.phase = Phase::Failure(ErrorKind::MaxRejectionsExceeded);
        } else {
            self.h = limit_step(h_scaled, self.h_min, self.h_max, self.forward);
            self.rejections = self.rejections + 1;
            self.phase = Phase::Stepping;
        }
        self.phase
    }
}

impl Integration {
    /// The result of a run that is over.
    pub(crate) fn conclude(self) -> (r: Result<Trajectory, SolveError>)
        requires
            self.wf(),
            self@.phase.terminated(),
        ensures
            r matches Ok(trajectory) ==> {
                &&& self@.phase is Success
                &&& trajectory@ == self@.trajectory
            },
            r matches Err(e) ==> {
                &&& self@.phase == Phase::Failure(e.kind)
                &&& e.trajectory@ == self@.trajectory
                &&& e.t == self@.t
                &&& e.y@ == self@.y()
            },
    {
        let y = copy_components(self.y());
        let t = self.t;
        match self.phase {
            Phase::Success => Ok(self.trajectory),
            Phase::Failure(kind) => Err(SolveError { kind, trajectory: self.trajectory, t, y }),
            _ => Ok(self.trajectory),
        }
    }

    /// Ends the run and hands out its result: the trajectory after a
    /// success; after a failure the reason, the partial trajectory and the
    /// last valid time and state. `None` while the run is still going.
    pub fn finish(self) -> (r: Option<Result<Trajectory, SolveError>>)
        requires
            self.wf(),
        ensures
            r.is_some() <==> self@.phase.terminated(),
            r matches Some(Ok(trajectory)) ==> {
                &&& self@.phase is Success
                &&& trajectory@ == self@.trajectory
            },
            r matches Some(Err(e)) ==> {
                &&& self@.phase == Phase::Failure(e.kind)
                &&& e.trajectory@ == self@.trajectory
                &&& e.t == self@.t
                &&& e.y@ == self@.y()
            },
    {
        if self.is_terminated() {
            Some(self.conclude())
        } else {
            None
        }
    }
}

/// Every transition keeps the invariant.
pub proof fn lemma_transitions_preserve_wf(
    v: IntegrationView,
    derivative: Seq<u64>,
    h_estimate: u64,
    t_plus_h: u64,
    candidate: Seq<u64>,
    last_stage: Seq<u64>,
    error_norm: u64,
    h_scaled: u64,
)
    requires
        v.wf(),
    ensures
        v.after_prepared(derivative, h_estimate).wf(),
        v.after_reach(t_plus_h).wf(),
        v.after_stepped(candidate, last_stage, error_norm, h_scaled).wf(),
{
    if v.active() {
        lemma_limited_step_allowed(h_estimate, v.h_min, v.h_max, v.forward);
        lemma_limited_step_allowed(h_scaled, v.h_min, v.h_max, v.forward);
        match v.initial_h {
            Some(h) => {
                lemma_limited_step_allowed(h, v.h_min, v.h_max, v.forward);
            },
            None => {},
        }
    }
    if v.phase is Stepping && precedes(v.forward, v.t, t_plus_h) && !v.closes(t_plus_h) {
        if v.forward {
            lemma_between_finite(v.t, t_plus_h, v.tf);
        } else {
            lemma_between_finite(v.tf, t_plus_h, v.t);
        }
    }
    let w = v.after_stepped(candidate, last_stage, error_norm, h_scaled);
    if w.trajectory != v.trajectory {
        let n = v.trajectory.times.len() as int;
        assert forall|i: int, j: int| 0 <= i < j < w.trajectory.times.len() implies precedes(
            w.forward,
            #[trigger] w.trajectory.times[i],
            #[trigger] w.trajectory.times[j],
        ) by {
            if j == n && i < n - 1 {
                assert(precedes(v.forward, v.trajectory.times[i], v.trajectory.times[n - 1]));
            }
        }
    }
}

/// A trajectory is append-only, and a sample is appended only for a step
/// whose error norm was at most 1 when it was accepted: the stepper's report
/// either leaves the trajectory as it is, or its norm is tolerable and the
/// trajectory gains exactly the candidate at the step's end. Nothing else
/// that the caller reports touches the trajectory.
pub proof fn lemma_samples_meet_tolerance(
    v: IntegrationView,
    derivative: Seq<u64>,
    h_estimate: u64,
    t_plus_h: u64,
    candidate: Seq<u64>,
    last_stage: Seq<u64>,
    error_norm: u64,
    h_scaled: u64,
)
    ensures
        v.after_prepared(derivative, h_estimate).trajectory == v.trajectory,
        v.after_reach(t_plus_h).trajectory == v.trajectory,
        ({
            let w = v.after_stepped(candidate, last_stage, error_norm, h_scaled);
            ||| w.trajectory == v.trajectory
            ||| {
                &&& tolerable(error_norm)
                &&& v.phase is Attempting
                &&& w.trajectory == v.trajectory.push(v.t_end, candidate)
            }
        }),
{
}

/// The derivative that opens a step is the last stage of the step accepted
/// before it, pattern for pattern: an accepted step installs its last stage
/// as the current derivative, and a rejected step, or a probe of the reach,
/// leaves the current derivative alone.
pub proof fn lemma_first_stage_is_last_stage(
    v: IntegrationView,
    t_plus_h: u64,
    candidate: Seq<u64>,
    last_stage: Seq<u64>,
    error_norm: u64,
    h_scaled: u64,
)
    ensures
        v.after_reach(t_plus_h).derivative == v.derivative,
        ({
            let w = v.after_stepped(candidate, last_stage, error_norm, h_scaled);
            if w.trajectory == v.trajectory.push(v.t_end, candidate) && w.trajectory != v.trajectory {
                w.derivative == last_stage
            } else {
                w.derivative == v.derivative
            }
        }),
{
    let w = v.after_stepped(candidate, last_stage, error_norm, h_scaled);
    if w.trajectory == v.trajectory.push(v.t_end, candidate) {
        assert(v.trajectory.push(v.t_end, candidate).times.len() == v.trajectory.times.len() + 1);
    }
}

/// A report that holds a NaN or an infinity in its candidate or last stage,
/// or a NaN error norm or step size, ends the run at once with
/// `NonFiniteState`: nothing is appended, and the last valid time and state
/// stay as they were.
pub proof fn lemma_non_finite_report_aborts(
    v: IntegrationView,
    candidate: Seq<u64>,
    last_stage: Seq<u64>,
    error_norm: u64,
    h_scaled: u64,
)
    requires
        v.phase is Attempting,
        !v.misfit(candidate, last_stage),
        !all_finite(candidate) || !all_finite(last_stage) || nan(error_norm) || nan(h_scaled),
    ensures
        ({
            let w = v.after_stepped(candidate, last_stage, error_norm, h_scaled);
            &&& w.phase == Phase::Failure(ErrorKind::NonFiniteState)
            &&& w.trajectory == v.trajectory
            &&& w.t == v.t
            &&& w.y() == v.y()
        }),
{
}

/// Of every run: sample times run strictly in the direction of integration,
/// the first of them strictly after the start, strictly upward when the end
/// lies after the start; and a run that succeeded has its last sample
/// exactly at the end time.
pub proof fn lemma_times_run_to_the_end(v: IntegrationView, i: int, j: int)
    requires
        v.wf(),
        0 <= i < j < v.trajectory.times.len(),
    ensures
        precedes(v.forward, v.t0, v.trajectory.times[i]),
        precedes(v.forward, v.trajectory.times[i], v.trajectory.times[j]),
        v.forward ==> below(v.trajectory.times[i], v.trajectory.times[j]),
        v.phase is Success ==> v.trajectory.times.last() == v.tf,
{
    assert(precedes(v.forward, v.trajectory.times[i], v.trajectory.times[j]));
    if i > 0 {
        assert(precedes(v.forward, v.trajectory.times[0], v.trajectory.times[i]));
    }
}

} // verus!
