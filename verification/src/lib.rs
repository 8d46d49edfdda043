//! A bounded worker-pool dispatcher, and the few rules of the small web server
//! that it serves.
//!
//! A fixed set of long-lived workers pulls jobs from one shared first-in,
//! first-out channel. This crate holds the decisions of that dispatcher as
//! verified, single-stepped state machines: the [`channel`], the [`worker`],
//! and the [`pool`] that owns both. The code that owns the threads takes one
//! step at a time under a lock, and does outside the lock what the step told
//! it to do: it waits, it runs a job, it ends. So every concurrent run is an
//! interleaving of the steps defined here.
//!
//! - [`model`] is the pool as a mathematical state machine.
//! - [`history`] is what a run of that machine has taken, handed out and seen
//!   ended.
//! - [`theorems`] holds what is proved of every run: no job is lost or run
//!   twice, no job goes to two workers, a failed job harms nothing, work never
//!   stalls, and a teardown ends with everything done.
//! - [`http`] reads a request line and frames a reply.

pub mod channel;
pub mod history;
pub mod http;
pub mod model;
pub mod pool;
pub mod theorems;
pub mod worker;

pub use channel::{JobChannel, Received, SendError};
pub use pool::{ConfigError, Pool};
pub use worker::{Directive, Outcome, StepError, Worker, WorkerState};
