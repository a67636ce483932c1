//! A single-process virtual-user load-generation engine.
//!
//! The engine distributes a configured number of virtual users across
//! weighted task sets, drives each virtual user through a select / execute /
//! wait state machine, and aggregates per-task request outcomes into summary
//! metrics. Scenario definitions, HTTP transport and report rendering are
//! external collaborators: they register task sets, perform the actions the
//! engine decides on, and consume the final metrics snapshot.

pub mod errors;
pub mod sums;
pub mod apportion;
pub mod tasks;
pub mod scheduler;
pub mod user;
pub mod metrics;
pub mod controller;
