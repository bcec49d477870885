//! Verified control core of an adaptive explicit Runge-Kutta integrator.
//!
//! Real scalars cross this library's boundary as raw IEEE-754 binary64 bit
//! patterns (`u64`). Every decision the integrator makes by comparing numbers
//! (finiteness, ordering in time, acceptance of a step, step-size limits,
//! which sample lies nearest) is made here and proved against the exact
//! value that a bit pattern denotes. Arithmetic on the real scalars
//! themselves is the caller's business: the caller evaluates the dynamical
//! system and runs the Runge-Kutta stages, behind [`solver::Stepper`].
//!
//! - [`binary64`]: what a bit pattern denotes; classification and order.
//! - [`distance`]: which of two numbers is nearer to a third, exactly.
//! - [`state`]: state vectors and their adapters.
//! - [`config`], [`problem`]: the options and the problem of a solve.
//! - [`controller`]: acceptance of a step and the limits on the next one.
//! - [`trajectory`]: the record of accepted samples and its queries.
//! - [`solver`]: the solver loop as a state machine.
//! - [`driver`]: `solve`, which runs the machine to its end.
//! - [`error`]: why a solve failed and what it had reached.

pub mod binary64;
pub mod config;
pub mod controller;
pub mod distance;
pub mod driver;
pub mod error;
pub mod problem;
pub mod solver;
pub mod state;
pub mod trajectory;
