//! Coordination of a collection of workers: registering them, running them until they
//! have all completed, and shutting them down.
//!
//! - [`monitor`] holds the registered workers and begins a run of them.
//! - [`run`] decides what a run polls, what it does with what came of it, and when it exits.
//! - [`shutdown`] is the token by which workers learn that they have to stop.
//! - [`wakes`] lists who has to be woken.
//! - [`worker`] names workers, and ties them to a monitor.
//! - [`decimal`] writes numbers.
//!
//! Nothing here polls a future or wakes a task. The operations say what has to be done, and
//! the one who drives a run does it.
#![allow(unused_imports)]

pub mod decimal;
pub mod monitor;
pub mod run;
pub mod shutdown;
pub mod wakes;
pub mod worker;
