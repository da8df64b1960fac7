//! A minimal cooperative task executor, with its behaviour stated and
//! proved: a double-ended ready queue of tasks, a spawner that enqueues
//! fire-and-forget work at the back and priority work at the front, a
//! scheduler turn that drives a blocking task to completion before
//! touching anything else, a live-task counter whose return to zero is
//! the condition `wait` observes, and the at-most-once initializer that
//! stands up the single process-wide runtime instance.
//!
//! The executor state lives in [`runtime::Runtime`], whose abstract
//! content is the [`runtime::RtState`] model; [`futures`] holds the
//! suspendable computations the scheduler drives, with the clock passed
//! in so that a test can control it; [`lazy`] holds the one-time
//! initializer.

pub mod futures;
pub mod lazy;
pub mod runtime;
