//! Batch-auction competition among solvers: building the request that every
//! solver receives, validating what solvers answer, choosing the winner and
//! driving the winning settlement through the configured mempool routes.
//!
//! A round runs through the modules in this order:
//!
//! - [`auction`]: the snapshot of open orders and reference prices;
//! - [`solve`]: the request that is built from the snapshot, with its token
//!   list and its absolute deadline, and the solutions that solvers propose;
//! - [`competition`]: the verdict on each proposal, the outcome of each
//!   solver's call and the pool of candidates;
//! - [`selector`]: the one winner of the pool, or none;
//! - [`settlement`]: the state machine that submits the winner, retries
//!   after drops and gives up at the deadline;
//! - [`round`]: the round as a whole and its outcome.
//!
//! [`colocation`] writes the configuration of solver and driver processes
//! for integration tests. [`eth`], [`keyed`], [`text`] and [`time`] hold
//! the plain values that the rest is made of.
//!
//! Every executable function carries a contract over the mathematical model
//! of its arguments, and what holds across functions is stated as a proof
//! function next to them. Nothing here does I/O: the caller delivers what
//! solvers and the chain said and carries out what the library asks for.
//! The few calls into other crates (the clock and calendar of `chrono`,
//! `unique_by` of `itertools`, the hexadecimal of `hex` and
//! `primitive_types`) are marked as trusted where they stand.

pub mod auction;
pub mod colocation;
pub mod competition;
pub mod eth;
pub mod keyed;
pub mod round;
pub mod selector;
pub mod settlement;
pub mod solve;
pub mod text;
pub mod time;
