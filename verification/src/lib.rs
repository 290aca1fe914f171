//! A configuration-driven job launcher core.
//!
//! The crate turns a declarative set of named jobs — each bound to a trigger
//! source (a cron schedule or an externally pushed queue entry) and a backend
//! store — into validated launch plans, runs each job's ordered command steps
//! (on the host or inside an ephemeral container), answers uniform queries
//! about queue state, and fans out live text events to subscribers.

pub mod model;
pub mod registry;
pub mod runner;
pub mod container;
pub mod facade;
pub mod store;
pub mod broadcaster;
