use std::collections::HashMap;
use std::time::Duration;
use things_api::stats::{status_line, Stats};
use things_api::stress::{created_id, read_path, stress_task};

#[test]
fn stress_tasks_are_titled_and_tagged() {
    let t = stress_task("0a1b2c3d", 3, 42, false);
    assert_eq!(t.title, format!("[stress {} w{}] task {}", "0a1b2c3d", 3, 42));
    assert_eq!(t.tags, Some(vec!["stress-test".to_string()]));
    assert_eq!(t.notes, None);
    assert_eq!(t.due_date, None);
    assert_eq!(t.list, None);
    assert_eq!(t.project, None);
    assert_eq!(t.checklist_items, None);
    let m = stress_task("r", 0, 0, true);
    assert_eq!(m.title, "[stress r m0] task 0");
    let big = stress_task("r", 10, u64::MAX, true);
    assert_eq!(big.title, format!("[stress r m10] task {}", u64::MAX));
}

#[test]
fn created_ids_are_kept_only_on_success() {
    assert_eq!(created_id(201, Some("ABC")), Some("ABC".to_string()));
    assert_eq!(created_id(200, Some("")), Some(String::new()));
    assert_eq!(created_id(299, None), None);
    assert_eq!(created_id(500, Some("ABC")), None);
    assert_eq!(created_id(199, Some("ABC")), None);
    assert_eq!(created_id(300, Some("ABC")), None);
}

#[test]
fn reads_rotate_over_the_four_listings() {
    let paths: Vec<&str> = (0..9).map(read_path).collect();
    assert_eq!(
        paths,
        vec!["/tasks", "/projects", "/tags", "/areas", "/tasks", "/projects", "/tags", "/areas", "/tasks"]
    );
    assert_eq!(read_path(usize::MAX), "/areas");
}

#[test]
fn status_line_lists_codes_in_order() {
    let mut m: HashMap<u16, usize> = HashMap::new();
    m.insert(500, 2);
    m.insert(200, 17);
    m.insert(0, 1);
    m.insert(65535, 3);
    assert_eq!(status_line(&m), "0=1 200=17 500=2 65535=3");
    assert_eq!(status_line(&HashMap::new()), "");
}

#[test]
fn status_counts_never_exceed_requests() {
    let mut s = Stats::new();
    s.record(200, Duration::from_millis(1));
    s.record_error(Duration::from_millis(1));
    s.record(404, Duration::from_millis(1));
    let total: usize = s.status_codes.values().sum();
    assert!(total <= s.latencies.len());
    assert_eq!(s.successes + s.failures, s.latencies.len());
}

#[test]
fn merging_nothing_changes_nothing_and_order_does_not_matter() {
    let mut a = Stats::new();
    a.record(200, Duration::from_millis(1));
    a.record(500, Duration::from_millis(2));
    let codes = a.status_codes.clone();
    a.merge(Stats::new());
    assert_eq!(a.status_codes, codes);
    assert_eq!(a.latencies.len(), 2);
    assert_eq!((a.successes, a.failures), (1, 1));

    let make = |codes: &[u16]| {
        let mut s = Stats::new();
        for (i, c) in codes.iter().enumerate() {
            s.record(*c, Duration::from_millis(i as u64));
        }
        s
    };
    let mut ab = make(&[200, 404]);
    ab.merge(make(&[200, 201]));
    let mut ba = make(&[200, 201]);
    ba.merge(make(&[200, 404]));
    assert_eq!(ab.status_codes, ba.status_codes);
    assert_eq!((ab.successes, ab.failures), (ba.successes, ba.failures));
    let mut la = ab.latencies.clone();
    let mut lb = ba.latencies.clone();
    la.sort();
    lb.sort();
    assert_eq!(la, lb);
}
