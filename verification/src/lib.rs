//! Scheduling core of a work-stealing task pool.
//!
//! The pool's bookkeeping is modelled here as plain data: a bounded intake
//! channel of submitted tasks, one FIFO queue per worker, a shared queue and
//! a counter of active tasks, those submitted whose result is not yet
//! produced. Each scheduling decision (accept or refuse a submission, hand a
//! task to a worker, choose what a worker runs next, steal from a peer,
//! record a finished task) is a verified step on that state. The
//! asynchronous runtime that drives these steps lives outside this crate.

mod rng;

pub mod config;
pub mod error;
pub mod pool;
pub mod task;
pub mod batch;
pub mod worker;
