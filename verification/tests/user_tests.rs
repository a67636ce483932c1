use loadgen::controller::{Controller, DrainDecision, RunConfig};
use loadgen::metrics::{MetricsCollector, OutcomeKind, RequestOutcome};
use loadgen::user::{SelectionPolicy, UserAction, UserEvent, UserPhase, VirtualUser};

fn sequential_user(task_count: usize, wait_min: u64, wait_max: u64) -> VirtualUser {
    VirtualUser::new(task_count, wait_min, wait_max, SelectionPolicy::Sequential, 0)
}

#[test]
fn sequential_selection_cycles_through_tasks() {
    let mut u = sequential_user(3, 0, 0);
    assert_eq!(u.on_event(UserEvent::Started, false, 0), UserAction::RunTask(0));
    assert_eq!(u.on_event(UserEvent::TaskCompleted(true), false, 0), UserAction::Wait(0));
    assert_eq!(u.on_event(UserEvent::WaitElapsed, false, 0), UserAction::RunTask(1));
    u.on_event(UserEvent::TaskCompleted(true), false, 0);
    assert_eq!(u.on_event(UserEvent::WaitElapsed, false, 0), UserAction::RunTask(2));
    u.on_event(UserEvent::TaskCompleted(true), false, 0);
    // Wraps back to the first task after the last.
    assert_eq!(u.on_event(UserEvent::WaitElapsed, false, 0), UserAction::RunTask(0));
}

#[test]
fn zero_wait_range_draws_no_pause() {
    // Wait range [0, 0]: back-to-back selections, whatever the entropy.
    let mut u = sequential_user(2, 0, 0);
    u.on_event(UserEvent::Started, false, 7);
    for entropy in [0u64, 1, 17, u64::MAX] {
        let a = u.on_event(UserEvent::TaskCompleted(true), false, entropy);
        assert_eq!(a, UserAction::Wait(0));
        assert_eq!(u.phase, UserPhase::Waiting);
        u.on_event(UserEvent::WaitElapsed, false, entropy);
    }
}

#[test]
fn wait_draw_stays_inside_the_range() {
    let mut u = sequential_user(1, 2, 5);
    u.on_event(UserEvent::Started, false, 0);
    for entropy in [0u64, 1, 2, 3, 4, 5, 99, u64::MAX] {
        match u.on_event(UserEvent::TaskCompleted(true), false, entropy) {
            UserAction::Wait(ms) => {
                assert!((2..=5).contains(&ms));
                assert_eq!(ms, 2 + entropy % 4);
            }
            other => panic!("expected a wait, got {:?}", other),
        }
        u.on_event(UserEvent::WaitElapsed, false, 0);
    }
}

#[test]
fn random_selection_uses_the_entropy() {
    let mut u = VirtualUser::new(4, 0, 0, SelectionPolicy::UniformRandom, 0);
    assert_eq!(u.on_event(UserEvent::Started, false, 6), UserAction::RunTask(2));
    u.on_event(UserEvent::TaskCompleted(true), false, 0);
    assert_eq!(u.on_event(UserEvent::WaitElapsed, false, 11), UserAction::RunTask(3));
}

#[test]
fn failing_task_does_not_stop_the_user() {
    // A task that fails every time never terminates its virtual user.
    let mut u = sequential_user(1, 0, 0);
    u.on_event(UserEvent::Started, false, 0);
    for _ in 0..10 {
        let a = u.on_event(UserEvent::TaskCompleted(false), false, 0);
        assert_eq!(a, UserAction::Wait(0));
        assert_eq!(u.phase, UserPhase::Waiting);
        assert_eq!(u.on_event(UserEvent::WaitElapsed, false, 0), UserAction::RunTask(0));
    }
    assert_eq!(u.completed, 10);
}

#[test]
fn iteration_cap_retires_the_user() {
    let mut u = VirtualUser::new(2, 0, 0, SelectionPolicy::Sequential, 2);
    u.on_event(UserEvent::Started, false, 0);
    assert_eq!(u.on_event(UserEvent::TaskCompleted(true), false, 0), UserAction::Wait(0));
    u.on_event(UserEvent::WaitElapsed, false, 0);
    assert_eq!(u.on_event(UserEvent::TaskCompleted(true), false, 0), UserAction::Shutdown);
    assert_eq!(u.phase, UserPhase::Stopped);
}

#[test]
fn stop_signal_observed_at_wait_checkpoint() {
    let mut u = sequential_user(2, 1, 3);
    u.on_event(UserEvent::Started, false, 0);
    u.on_event(UserEvent::TaskCompleted(true), false, 0);
    // The stop is raised while the user waits; it is seen when the wait ends,
    // before the next task is selected.
    let a = u.on_event(UserEvent::WaitElapsed, true, 0);
    assert_eq!(a, UserAction::Shutdown);
    assert_eq!(u.phase, UserPhase::Stopped);
}

#[test]
fn stop_signal_observed_before_first_task() {
    let mut u = sequential_user(2, 0, 0);
    let a = u.on_event(UserEvent::Started, true, 0);
    assert_eq!(a, UserAction::Shutdown);
    assert_eq!(u.phase, UserPhase::Stopped);
}

#[test]
fn request_counter_tracks_exchanges() {
    let mut u = sequential_user(1, 0, 0);
    u.note_request();
    u.note_request();
    assert_eq!(u.requests, 2);
}

#[test]
fn stop_mid_run_drains_within_grace_and_drops_nothing() {
    // A run with two users is stopped mid-flight. One user is waiting and
    // retires at its checkpoint; the other is mid-task. Within the grace
    // period it finishes nothing, so it is force-aborted and its in-flight
    // execution is recorded as aborted: the final snapshot accounts for
    // every started execution.
    let config = RunConfig {
        total_users: 2,
        ramp_interval_ms: 0,
        run_duration_ms: 0,
        iteration_cap: 0,
        grace_period_ms: 2_000,
    };
    let mut controller = Controller::new(config);
    let mut collector = MetricsCollector::new();
    let mut waiting_user = sequential_user(1, 0, 3);
    let mut busy_user = sequential_user(1, 0, 3);

    waiting_user.on_event(UserEvent::Started, false, 1);
    collector.record(RequestOutcome {
        task_name: "page".to_string(),
        elapsed_ms: 12,
        kind: OutcomeKind::Success,
    });
    waiting_user.on_event(UserEvent::TaskCompleted(true), false, 1);
    busy_user.on_event(UserEvent::Started, false, 1); // now mid-task

    controller.stop();
    assert!(controller.should_stop(500));

    // The waiting user reaches its checkpoint and retires cooperatively.
    assert_eq!(waiting_user.on_event(UserEvent::WaitElapsed, true, 0), UserAction::Shutdown);

    // The busy user is still in flight: wait out the grace period, no longer.
    assert_eq!(controller.drain_decision(100, 1), DrainDecision::KeepWaiting);
    assert_eq!(controller.drain_decision(2_000, 1), DrainDecision::ForceAbort);

    // Force-abort: the user stops and the in-flight execution is recorded.
    assert_eq!(busy_user.on_event(UserEvent::AbortRequested, true, 0), UserAction::Shutdown);
    assert_eq!(busy_user.phase, UserPhase::Stopped);
    collector.record(RequestOutcome {
        task_name: "page".to_string(),
        elapsed_ms: 2_000,
        kind: OutcomeKind::Aborted,
    });
    assert_eq!(controller.drain_decision(2_000, 0), DrainDecision::AllDone);

    let snap = collector.snapshot();
    assert_eq!(snap.entries.len(), 1);
    let e = &snap.entries[0];
    assert_eq!(e.count, 2);
    assert_eq!(e.success_count, 1);
    assert_eq!(e.aborted_count, 1);
}
