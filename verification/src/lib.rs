//! Axiom.co backend for the `tracing` crate: the part that decides.
//!
//! - [`event`], [`value`] and [`text`] turn events into the records that Axiom
//!   ingests; [`metrics`] and [`proto`] do the same for metrics.
//! - [`batch`] collects records into compressed batches.
//! - [`slot`] and [`tasks`] hand the batches to a pool of senders; [`pool`]
//!   proves that no batch is lost, duplicated or left behind, however the tasks
//!   interleave.
//! - [`system`] puts collecting and the pool together: every event that is
//!   received is posted.
//! - [`delivery`] posts a batch with retries.
//! - [`config`] checks the configuration.
//! - [`laws`] says of every operation what its result must be like, in terms of
//!   what goes in and what comes out.
//!
//! Sockets, timers and channels are left to the caller, which performs the
//! actions that the state machines here ask for and reports what happened. Calls
//! into other crates are gathered in [`outside`].

pub mod batch;
pub mod config;
pub mod delivery;
pub mod event;
pub mod laws;
pub mod metrics;
pub mod outside;
pub mod pool;
pub mod proto;
pub mod slot;
pub mod sorted_map;
pub mod system;
pub mod tasks;
pub mod text;
pub mod value;
