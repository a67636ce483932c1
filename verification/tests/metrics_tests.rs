use loadgen::metrics::{MetricsCollector, OutcomeKind, RequestOutcome};

fn outcome(task: &str, elapsed_ms: u64, kind: OutcomeKind) -> RequestOutcome {
    RequestOutcome { task_name: task.to_string(), elapsed_ms, kind }
}

#[test]
fn record_then_snapshot_reflects_outcome_exactly_once() {
    let mut c = MetricsCollector::new();
    c.record(outcome("blog", 42, OutcomeKind::Success));
    let snap = c.snapshot();
    assert_eq!(snap.entries.len(), 1);
    let e = &snap.entries[0];
    assert_eq!(e.name, "blog");
    assert_eq!(e.count, 1);
    assert_eq!(e.success_count, 1);
    assert_eq!(e.task_failure_count, 0);
    assert_eq!(e.transport_failure_count, 0);
    assert_eq!(e.aborted_count, 0);
    assert_eq!(e.min_ms, 42);
    assert_eq!(e.max_ms, 42);
    assert_eq!(e.total_ms, 42);
}

#[test]
fn snapshot_is_idempotent_without_recording() {
    let mut c = MetricsCollector::new();
    c.record(outcome("blog", 10, OutcomeKind::Success));
    c.record(outcome("front", 20, OutcomeKind::TaskFailure));
    let first = c.snapshot();
    let second = c.snapshot();
    assert_eq!(first, second);
}

#[test]
fn snapshot_is_detached_from_later_recording() {
    let mut c = MetricsCollector::new();
    c.record(outcome("blog", 10, OutcomeKind::Success));
    let before = c.snapshot();
    c.record(outcome("blog", 30, OutcomeKind::Success));
    assert_eq!(before.entries[0].count, 1);
    assert_eq!(c.snapshot().entries[0].count, 2);
}

#[test]
fn interleaved_users_outcomes_all_counted() {
    // Three virtual users submitting four outcomes each, interleaved:
    // the final snapshot shows exactly 3 * 4 recorded outcomes.
    let mut c = MetricsCollector::new();
    let users = ["blog", "front", "listing"];
    for round in 0..4u64 {
        for task in users.iter() {
            let kind = if round % 2 == 0 { OutcomeKind::Success } else { OutcomeKind::TaskFailure };
            c.record(outcome(task, 10 + round, kind));
        }
    }
    let snap = c.snapshot();
    let total: u64 = snap.entries.iter().map(|e| e.count).sum();
    assert_eq!(total, 12);
    for e in &snap.entries {
        assert_eq!(e.count, 4);
        assert_eq!(e.success_count, 2);
        assert_eq!(e.task_failure_count, 2);
    }
}

#[test]
fn always_failing_task_counts_failures_only() {
    // A task that fails every time: success count zero, failure count equal
    // to the invocation count.
    let mut c = MetricsCollector::new();
    for _ in 0..5 {
        c.record(outcome("flaky", 100, OutcomeKind::TaskFailure));
    }
    let snap = c.snapshot();
    assert_eq!(snap.entries.len(), 1);
    let e = &snap.entries[0];
    assert_eq!(e.success_count, 0);
    assert_eq!(e.task_failure_count, 5);
    assert_eq!(e.count, 5);
}

#[test]
fn transport_failures_kept_apart_from_task_failures() {
    let mut c = MetricsCollector::new();
    c.record(outcome("blog", 5, OutcomeKind::TransportFailure));
    c.record(outcome("blog", 7, OutcomeKind::TaskFailure));
    c.record(outcome("blog", 9, OutcomeKind::Success));
    let e = &c.snapshot().entries[0];
    assert_eq!(e.transport_failure_count, 1);
    assert_eq!(e.task_failure_count, 1);
    assert_eq!(e.success_count, 1);
    assert_eq!(e.count, 3);
}

#[test]
fn latency_extremes_and_mean() {
    let mut c = MetricsCollector::new();
    c.record(outcome("blog", 10, OutcomeKind::Success));
    c.record(outcome("blog", 30, OutcomeKind::Success));
    c.record(outcome("blog", 20, OutcomeKind::Success));
    let snap = c.snapshot();
    let e = &snap.entries[0];
    assert_eq!(e.min_ms, 10);
    assert_eq!(e.max_ms, 30);
    assert_eq!(e.total_ms, 60);
    assert_eq!(e.mean_ms(), 20);
}

#[test]
fn histogram_buckets_fill_by_latency() {
    let mut c = MetricsCollector::new();
    c.record(outcome("blog", 5, OutcomeKind::Success)); // bucket 0: < 10
    c.record(outcome("blog", 45, OutcomeKind::Success)); // bucket 1: < 50
    c.record(outcome("blog", 9_999, OutcomeKind::Success)); // bucket 6: < 10000
    c.record(outcome("blog", 10_000, OutcomeKind::Success)); // bucket 7
    let e = &c.snapshot().entries[0];
    assert_eq!(e.bucket_counts, vec![1, 1, 0, 0, 0, 0, 1, 1]);
    let histogram_total: u64 = e.bucket_counts.iter().sum();
    assert_eq!(histogram_total, e.count);
}

#[test]
fn percentiles_come_from_the_histogram() {
    let mut c = MetricsCollector::new();
    c.record(outcome("blog", 5, OutcomeKind::Success)); // bucket 0
    c.record(outcome("blog", 45, OutcomeKind::Success)); // bucket 1
    c.record(outcome("blog", 9_999, OutcomeKind::Success)); // bucket 6
    c.record(outcome("blog", 10_000, OutcomeKind::Success)); // bucket 7
    let snap = c.snapshot();
    let e = &snap.entries[0];
    // 50% of 4 samples = 2: reached in the second bucket.
    assert_eq!(e.percentile_bucket(50), 1);
    assert_eq!(e.percentile_bucket(75), 6);
    assert_eq!(e.percentile_bucket(100), 7);
    assert_eq!(e.percentile_bucket(1), 0);
}

#[test]
fn entries_appear_in_order_of_first_outcome() {
    let mut c = MetricsCollector::new();
    c.record(outcome("front", 1, OutcomeKind::Success));
    c.record(outcome("blog", 1, OutcomeKind::Success));
    c.record(outcome("front", 1, OutcomeKind::Success));
    let snap = c.snapshot();
    assert_eq!(snap.entries[0].name, "front");
    assert_eq!(snap.entries[1].name, "blog");
    assert_eq!(c.task_count(), 2);
}

#[test]
fn aborted_outcomes_stay_in_the_snapshot() {
    let mut c = MetricsCollector::new();
    c.record(outcome("blog", 15, OutcomeKind::Success));
    c.record(outcome("blog", 800, OutcomeKind::Aborted));
    let e = &c.snapshot().entries[0];
    assert_eq!(e.count, 2);
    assert_eq!(e.aborted_count, 1);
}
