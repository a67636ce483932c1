use vstd::prelude::*;
use crate::errors::{ConfigError, SchedulerError};
use crate::apportion::{base_share, remainder_priority};
use crate::scheduler;
use crate::scheduler::weights_of;
use crate::sums::sum64;
use crate::tasks::{Registry, TaskSet, register_outcome};

verus! {

/// Run parameters, supplied once before the run starts and immutable during
/// it. Zero means "no limit" for the duration and iteration caps, and "no
/// ramp-up" for the interval.
#[derive(Clone, Copy, Debug, PartialEq, Eq, Structural)]
pub struct RunConfig {
    /// How many virtual users the run drives in total.
    pub total_users: u64,
    /// One new virtual user is started every this many milliseconds.
    pub ramp_interval_ms: u64,
    /// The run ends after this many milliseconds.
    pub run_duration_ms: u64,
    /// Each virtual user retires after this many completed tasks.
    pub iteration_cap: u64,
    /// After `stop`, in-flight work is given this long before a force-abort.
    pub grace_period_ms: u64,
}

/// What the drain loop must do next, once the run is stopping.
#[derive(Clone, Copy, Debug, PartialEq, Eq, Structural)]
pub enum DrainDecision {
    /// No work is in flight: the run is over, take the final snapshot.
    AllDone,
    /// In-flight work remains and the grace period still runs: wait.
    KeepWaiting,
    /// The grace period is spent: force-abort the stragglers and record
    /// each aborted execution as an aborted outcome.
    ForceAbort,
}

/// The drain rule: finish when nothing is in flight, wait while the grace
/// period lasts, force-abort after it.
pub open spec fn drain_rule(grace_period_ms: u64, waited_ms: u64, in_flight: u64) -> DrainDecision {
    if in_flight == 0 {
        DrainDecision::AllDone
    } else if waited_ms < grace_period_ms {
        DrainDecision::KeepWaiting
    } else {
        DrainDecision::ForceAbort
    }
}

/// Top-level orchestration: assembles the run configuration, freezes it when
/// the run starts, carries the cooperative stop signal, and decides when the
/// run is over. The driver performs what these decisions call for.
pub struct Controller {
    pub config: RunConfig,
    pub registry: Registry,
    pub started: bool,
    pub stop_requested: bool,
}

impl Controller {
    pub open spec fn sets(&self) -> Seq<TaskSet> {
        self.registry@
    }

    pub open spec fn is_started(&self) -> bool {
        self.started
    }

    pub open spec fn is_stopping(&self) -> bool {
        self.stop_requested
    }

    pub open spec fn wf(&self) -> bool {
        crate::tasks::registry_wf(self.sets())
    }

    /// A controller with the given run parameters and nothing registered.
    pub fn new(config: RunConfig) -> (c: Controller)
        ensures
            c.wf(),
            c.config == config,
            c.sets() == Seq::<TaskSet>::empty(),
            !c.is_started(),
            !c.is_stopping(),
    {
        Controller { config, registry: Registry::new(), started: false, stop_requested: false }
    }

    /// Add a task set to the run. Only possible before the run starts; the
    /// configuration is frozen afterwards. Invalid task sets are rejected
    /// here, before any virtual user exists.
    pub fn register(&mut self, ts: TaskSet) -> (r: Result<(), ConfigError>)
        requires
            old(self).wf(),
            !old(self).is_started(),
        ensures
            final(self).wf(),
            r == register_outcome(old(self).sets(), ts),
            r is Ok ==> final(self).sets() == old(self).sets().push(ts),
            r is Err ==> final(self).sets() == old(self).sets(),
            final(self).config == old(self).config,
            !final(self).is_started(),
            final(self).is_stopping() == old(self).is_stopping(),
    {
        self.registry.register(ts)
    }

    /// Start the run: freeze the configuration and compute how many virtual
    /// users each task set receives. Fails exactly when nothing is
    /// registered, before any virtual user is spawned.
    pub fn start(&mut self) -> (r: Result<Vec<u64>, SchedulerError>)
        requires
            old(self).wf(),
        ensures
            final(self).wf(),
            final(self).sets() == old(self).sets(),
            final(self).config == old(self).config,
            final(self).is_stopping() == old(self).is_stopping(),
            r is Err <==> old(self).sets().len() == 0,
            r is Err ==> r == Err::<Vec<u64>, SchedulerError>(SchedulerError::NoTaskSets)
                && final(self).is_started() == old(self).is_started(),
            r is Ok ==> final(self).is_started(),
            r is Ok ==> {
                let alloc = r->Ok_0;
                let n = old(self).config.total_users;
                let ws = weights_of(old(self).sets());
                &&& alloc@.len() == old(self).sets().len()
                &&& sum64(alloc@) == n
                &&& forall|i: int| 0 <= i < alloc@.len() ==>
                    base_share(n, ws, i) <= #[trigger] (alloc@[i] as int) <= base_share(n, ws, i) + 1
                &&& forall|i: int, j: int|
                    0 <= i < alloc@.len() && 0 <= j < alloc@.len()
                        && alloc@[i] == base_share(n, ws, i) + 1
                        && #[trigger] (alloc@[j] as int) == base_share(n, ws, j)
                        ==> #[trigger] remainder_priority(n, ws, i, j)
            },
    {
        let alloc = scheduler::plan(&self.registry, self.config.total_users)?;
        self.started = true;
        Ok(alloc)
    }

    /// Request a cooperative stop. Virtual users observe it at their next
    /// checkpoint; nothing is interrupted mid-request.
    pub fn stop(&mut self)
        ensures
            final(self).is_stopping(),
            final(self).sets() == old(self).sets(),
            final(self).config == old(self).config,
            final(self).is_started() == old(self).is_started(),
    {
        self.stop_requested = true;
    }

    /// Whether the run-completion condition holds `elapsed_ms` into the run:
    /// an external stop was requested, or the configured duration is up.
    pub fn should_stop(&self, elapsed_ms: u64) -> (r: bool)
        ensures
            r == (self.is_stopping()
                || (self.config.run_duration_ms != 0 && elapsed_ms >= self.config.run_duration_ms)),
    {
        self.stop_requested
            || (self.config.run_duration_ms != 0 && elapsed_ms >= self.config.run_duration_ms)
    }

    /// The drain step once the run is stopping, `waited_ms` after the stop
    /// with `in_flight` executions still running.
    pub fn drain_decision(&self, waited_ms: u64, in_flight: u64) -> (d: DrainDecision)
        ensures
            d == drain_rule(self.config.grace_period_ms, waited_ms, in_flight),
    {
        if in_flight == 0 {
            DrainDecision::AllDone
        } else if waited_ms < self.config.grace_period_ms {
            DrainDecision::KeepWaiting
        } else {
            DrainDecision::ForceAbort
        }
    }
}

/// Law: shutdown latency is bounded by the grace period. Once the grace
/// period has been waited out, the drain rule never asks for more waiting:
/// either everything drained, or the stragglers are force-aborted (and each
/// aborted execution is recorded, so nothing disappears from the final
/// snapshot).
pub proof fn lemma_drain_bounded(grace_period_ms: u64, waited_ms: u64, in_flight: u64)
    requires
        waited_ms >= grace_period_ms,
    ensures
        drain_rule(grace_period_ms, waited_ms, in_flight) != DrainDecision::KeepWaiting,
{
}

} // verus!
