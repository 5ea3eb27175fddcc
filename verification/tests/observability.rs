use ultrabalancer::metrics::collector::{MetricsCollector, MAX_DURATION_NANOS};

#[test]
fn counters_and_reset() {
    let mut m = MetricsCollector::new();
    m.increment_total_requests();
    m.increment_total_requests();
    m.increment_successful_requests();
    m.increment_failed_requests();
    m.record_response_time(10);
    assert_eq!((m.total_requests(), m.successful_requests(), m.failed_requests()), (2, 1, 1));
    let s = m.summary();
    assert_eq!((s.count, s.sum_nanos, s.min_nanos, s.max_nanos), (1, 10, 10, 10));
    m.reset();
    assert_eq!(m.total_requests(), 0);
    let s = m.summary();
    assert_eq!((s.count, s.sum_nanos, s.p50_nanos), (0, 0, 0));
}

#[test]
fn percentiles_of_a_window() {
    let mut m = MetricsCollector::new();
    for v in [50u128, 10, 40, 20, 30, 100, 90, 60, 80, 70] {
        m.record_response_time(v);
    }
    let s = m.summary();
    assert_eq!(s.count, 10);
    assert_eq!(s.sum_nanos, 550);
    assert_eq!(s.min_nanos, 10);
    assert_eq!(s.max_nanos, 100);
    assert_eq!(s.p50_nanos, 60);
    assert_eq!(s.p95_nanos, 100);
    assert_eq!(s.p99_nanos, 100);
    assert!(s.min_nanos <= s.p50_nanos && s.p50_nanos <= s.p95_nanos && s.p95_nanos <= s.max_nanos);
}

#[test]
fn global_window_is_cut_in_half() {
    let mut m = MetricsCollector::new();
    for v in 0..10_001u128 {
        m.record_response_time(v);
    }
    let s = m.summary();
    assert_eq!(s.count, 5001);
    assert_eq!(s.min_nanos, 5000);
    assert_eq!(s.max_nanos, 10_000);
    m.record_response_time(MAX_DURATION_NANOS);
    assert_eq!(m.summary().max_nanos, MAX_DURATION_NANOS);
}

#[test]
fn backend_counters() {
    let mut m = MetricsCollector::new();
    m.init_backends(&vec!["a".to_string(), "b".to_string(), "a".to_string()]);
    m.record_backend_request("a", true, 5);
    m.record_backend_request("a", false, 7);
    m.record_backend_request("c", true, 1);
    m.increment_backend_connections("b");
    m.increment_backend_connections("b");
    m.decrement_backend_connections("b");
    m.decrement_backend_connections("zzz");
    m.update_backend_status("a", false);
    m.update_backend_status("zzz", false);
    let b = m.backend_summaries();
    assert_eq!(b.len(), 3);
    assert_eq!(b[0].name, "a");
    assert_eq!((b[0].total_requests, b[0].successful_requests, b[0].failed_requests), (2, 1, 1));
    assert_eq!((b[0].count, b[0].sum_nanos, b[0].last_nanos), (2, 12, Some(7)));
    assert_eq!(b[0].status, "down");
    assert_eq!(b[1].name, "b");
    assert_eq!(b[1].active_connections, 1);
    assert_eq!(b[1].last_nanos, None);
    assert_eq!(b[1].status, "up");
    assert_eq!(b[2].name, "c");
    assert_eq!(b[2].total_requests, 1);
}

#[test]
fn backend_window_is_cut_in_half() {
    let mut m = MetricsCollector::new();
    for v in 0..1001u128 {
        m.record_backend_request("a", true, v);
    }
    let b = m.backend_summaries();
    assert_eq!(b[0].count, 501);
    assert_eq!(b[0].total_requests, 1001);
    assert_eq!(b[0].last_nanos, Some(1000));
}
