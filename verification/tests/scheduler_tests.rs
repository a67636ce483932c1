use loadgen::apportion::apportion;
use loadgen::controller::{Controller, DrainDecision, RunConfig};
use loadgen::errors::{ConfigError, SchedulerError};
use loadgen::scheduler::{plan, users_started};
use loadgen::tasks::{Registry, Task, TaskSet};

fn task_set(name: &str, weight: u64, wait_min: u64, wait_max: u64, tasks: &[&str]) -> TaskSet {
    TaskSet {
        name: name.to_string(),
        weight,
        wait_min_ms: wait_min,
        wait_max_ms: wait_max,
        tasks: tasks.iter().map(|t| Task { name: t.to_string() }).collect(),
    }
}

fn run_config() -> RunConfig {
    RunConfig {
        total_users: 100,
        ramp_interval_ms: 0,
        run_duration_ms: 60_000,
        iteration_cap: 0,
        grace_period_ms: 2_000,
    }
}

#[test]
fn apportion_95_4_1_is_exact() {
    // Three task sets weighted 95/4/1 with 100 users split exactly 95/4/1.
    let weights = vec![95u64, 4, 1];
    let alloc = apportion(100, &weights);
    assert_eq!(alloc, vec![95, 4, 1]);
}

#[test]
fn apportion_sums_to_total() {
    let weights = vec![3u64, 2];
    // 7 * 3 / 5 = 4 rem 1; 7 * 2 / 5 = 2 rem 4: the second bucket wins the
    // leftover unit.
    let alloc = apportion(7, &weights);
    assert_eq!(alloc, vec![4, 3]);
    assert_eq!(alloc.iter().sum::<u64>(), 7);
}

#[test]
fn apportion_breaks_ties_by_registration_order() {
    // All remainders equal: the earliest bucket takes the single leftover.
    let weights = vec![1u64, 1, 1];
    let alloc = apportion(10, &weights);
    assert_eq!(alloc, vec![4, 3, 3]);
}

#[test]
fn apportion_zero_users() {
    let weights = vec![5u64, 9];
    assert_eq!(apportion(0, &weights), vec![0, 0]);
}

#[test]
fn apportion_zero_weight_bucket_gets_nothing() {
    let weights = vec![0u64, 5];
    assert_eq!(apportion(7, &weights), vec![0, 7]);
}

#[test]
fn apportion_single_bucket_takes_everything() {
    let weights = vec![7u64];
    assert_eq!(apportion(13, &weights), vec![13]);
}

#[test]
fn apportion_each_share_is_floor_or_one_more() {
    let weights = vec![7u64, 11, 3, 9];
    let total: u64 = weights.iter().sum();
    let n: u64 = 29;
    let alloc = apportion(n, &weights);
    assert_eq!(alloc.iter().sum::<u64>(), n);
    for (a, w) in alloc.iter().zip(weights.iter()) {
        let base = n * w / total;
        assert!(*a == base || *a == base + 1);
    }
}

#[test]
fn register_rejects_zero_weight() {
    let mut reg = Registry::new();
    let r = reg.register(task_set("blog", 0, 0, 3, &["load"]));
    assert_eq!(r, Err(ConfigError::InvalidWeight));
    assert_eq!(reg.len(), 0);
}

#[test]
fn register_rejects_inverted_wait_range() {
    let mut reg = Registry::new();
    let r = reg.register(task_set("blog", 5, 4, 3, &["load"]));
    assert_eq!(r, Err(ConfigError::InvalidWaitRange));
    assert_eq!(reg.len(), 0);
}

#[test]
fn register_rejects_duplicate_name() {
    let mut reg = Registry::new();
    assert_eq!(reg.register(task_set("blog", 5, 0, 3, &["load"])), Ok(()));
    let r = reg.register(task_set("blog", 2, 1, 2, &["other"]));
    assert_eq!(r, Err(ConfigError::DuplicateName));
    assert_eq!(reg.len(), 1);
}

#[test]
fn plan_fails_on_empty_registry() {
    let reg = Registry::new();
    assert_eq!(plan(&reg, 10), Err(SchedulerError::NoTaskSets));
}

#[test]
fn plan_allocates_per_weight() {
    let mut reg = Registry::new();
    reg.register(task_set("blog", 95, 0, 3, &["load"])).unwrap();
    reg.register(task_set("front", 4, 1, 3, &["load"])).unwrap();
    reg.register(task_set("listing", 1, 1, 3, &["load"])).unwrap();
    let alloc = plan(&reg, 100).unwrap();
    assert_eq!(alloc, vec![95, 4, 1]);
}

#[test]
fn ramp_up_starts_everyone_without_interval() {
    assert_eq!(users_started(50, 0, 0), 50);
}

#[test]
fn ramp_up_adds_users_at_fixed_rate() {
    assert_eq!(users_started(50, 100, 0), 1);
    assert_eq!(users_started(50, 100, 99), 1);
    assert_eq!(users_started(50, 100, 100), 2);
    assert_eq!(users_started(50, 100, 250), 3);
    assert_eq!(users_started(50, 100, 1_000_000), 50);
}

#[test]
fn controller_validates_before_start() {
    let mut c = Controller::new(run_config());
    assert_eq!(
        c.register(task_set("bad", 0, 0, 0, &["x"])),
        Err(ConfigError::InvalidWeight)
    );
    assert_eq!(c.register(task_set("blog", 95, 0, 3, &["x"])), Ok(()));
    assert_eq!(c.register(task_set("front", 4, 1, 3, &["x"])), Ok(()));
    assert_eq!(c.register(task_set("listing", 1, 1, 3, &["x"])), Ok(()));
    let alloc = c.start().unwrap();
    assert_eq!(alloc, vec![95, 4, 1]);
}

#[test]
fn controller_start_fails_with_nothing_registered() {
    let mut c = Controller::new(run_config());
    assert_eq!(c.start(), Err(SchedulerError::NoTaskSets));
}

#[test]
fn controller_stops_on_signal_or_duration() {
    let mut c = Controller::new(run_config());
    assert!(!c.should_stop(0));
    assert!(!c.should_stop(59_999));
    assert!(c.should_stop(60_000));
    assert!(!c.should_stop(10));
    c.stop();
    assert!(c.should_stop(10));
}

#[test]
fn drain_finishes_when_nothing_in_flight() {
    let c = Controller::new(run_config());
    assert_eq!(c.drain_decision(0, 0), DrainDecision::AllDone);
    assert_eq!(c.drain_decision(5_000, 0), DrainDecision::AllDone);
}

#[test]
fn drain_waits_only_within_grace_period() {
    let c = Controller::new(run_config());
    assert_eq!(c.drain_decision(0, 3), DrainDecision::KeepWaiting);
    assert_eq!(c.drain_decision(1_999, 3), DrainDecision::KeepWaiting);
    assert_eq!(c.drain_decision(2_000, 3), DrainDecision::ForceAbort);
    assert_eq!(c.drain_decision(9_999, 1), DrainDecision::ForceAbort);
}
