use vstd::prelude::*;

verus! {

/// Errors surfaced while assembling the run configuration, before any
/// virtual user starts. Configuration errors are fatal: no run begins.
#[derive(Clone, Copy, Debug, PartialEq, Eq, Structural)]
pub enum ConfigError {
    /// A task set was registered with weight zero.
    InvalidWeight,
    /// A task set's wait range has a minimum above its maximum.
    InvalidWaitRange,
    /// A task set with the same name is already registered.
    DuplicateName,
}

/// Errors surfaced when the scheduler starts a run.
#[derive(Clone, Copy, Debug, PartialEq, Eq, Structural)]
pub enum SchedulerError {
    /// The registry holds no task sets, so there is nothing to run.
    NoTaskSets,
}

} // verus!
