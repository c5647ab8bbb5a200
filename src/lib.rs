//! A personal scheduler of recurring desktop notifications: the job table, the
//! scheduler engine that arms one timer per job, the signal files through which
//! short-lived commands talk to the long-running daemon, and the daemon's loop
//! as an explicit state machine.
pub mod cli;
pub mod display;
pub mod job;
pub mod schedule;
pub mod store;
pub mod engine;
pub mod signals;
pub mod daemon;
pub mod controller;
