use std::time::Duration;
use things_api::stats::Stats;

#[test]
fn record_counts_successes_failures_and_codes() {
    let mut s = Stats::new();
    s.record(200, Duration::from_millis(5));
    s.record(204, Duration::from_millis(6));
    s.record(404, Duration::from_millis(7));
    s.record(299, Duration::from_millis(1));
    s.record(300, Duration::from_millis(1));
    s.record(199, Duration::from_millis(1));
    assert_eq!(s.successes, 3);
    assert_eq!(s.failures, 3);
    assert_eq!(s.latencies.len(), 6);
    assert_eq!(s.status_codes.get(&200), Some(&1));
    assert_eq!(s.status_codes.get(&404), Some(&1));
    s.record(404, Duration::from_millis(7));
    assert_eq!(s.status_codes.get(&404), Some(&2));
}

#[test]
fn record_error_counts_a_failure_without_a_code() {
    let mut s = Stats::new();
    s.record_error(Duration::from_secs(1));
    assert_eq!(s.failures, 1);
    assert_eq!(s.successes, 0);
    assert!(s.status_codes.is_empty());
    assert_eq!(s.latencies, vec![Duration::from_secs(1)]);
}

#[test]
fn merge_adds_everything() {
    let mut a = Stats::new();
    a.record(200, Duration::from_millis(1));
    a.record(500, Duration::from_millis(2));
    let mut b = Stats::new();
    b.record(200, Duration::from_millis(3));
    b.record(201, Duration::from_millis(4));
    b.record_error(Duration::from_millis(5));
    a.merge(b);
    assert_eq!(a.successes, 3);
    assert_eq!(a.failures, 2);
    assert_eq!(
        a.latencies,
        vec![1, 2, 3, 4, 5].into_iter().map(Duration::from_millis).collect::<Vec<_>>()
    );
    assert_eq!(a.status_codes.get(&200), Some(&2));
    assert_eq!(a.status_codes.get(&201), Some(&1));
    assert_eq!(a.status_codes.get(&500), Some(&1));
    assert_eq!(a.status_codes.len(), 3);
    assert_eq!(a.successes + a.failures, a.latencies.len());
}
