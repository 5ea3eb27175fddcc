use ultrabalancer::backend::address::{parse_backend, BackendSpecError};
use ultrabalancer::backend::circuit_breaker::{CircuitBreaker, CircuitBreakerConfig, CircuitState};
use ultrabalancer::backend::health::{CheckOutcome, CheckVerdict, HealthCheckConfig, HealthChecker};
use ultrabalancer::backend::pool::ServerPool;
use ultrabalancer::backend::server::{Server, ServerStatus};
use ultrabalancer::error::LoadBalancerError;

fn server(host: &str, port: u16, weight: u32) -> Server {
    Server::new(host.to_string(), port, weight)
}

#[test]
fn new_server_is_up_and_named_by_address() {
    let s = server("10.0.0.1", 8080, 3);
    assert_eq!(s.id(), "10.0.0.1:8080");
    assert_eq!(s.address(), "10.0.0.1:8080");
    assert_eq!(s.weight(), 3);
    assert!(s.is_healthy());
    assert!(s.is_available());
    assert_eq!(s.status(), ServerStatus::Up);
    assert_eq!(s.failure_count(), 0);
    assert_eq!(s.connection_count(), 0);
    assert!(s.last_response_time().is_none());
    assert!(s.last_check_time().is_none());
}

#[test]
fn server_counters() {
    let mut s = server("a", 1, 1);
    s.increment_connections();
    s.increment_connections();
    assert_eq!(s.connection_count(), 2);
    assert_eq!(s.total_requests(), 2);
    s.decrement_connections();
    assert_eq!(s.connection_count(), 1);
    assert_eq!(s.increment_failures(), 1);
    assert_eq!(s.increment_failures(), 2);
    s.reset_failures();
    assert_eq!(s.failure_count(), 0);
    s.mark_unhealthy();
    assert!(!s.is_healthy());
    assert!(s.last_check_time().is_some());
    s.mark_healthy();
    assert!(s.is_healthy());
    assert_eq!(s.success_count(), 1);
    s.set_status(ServerStatus::Draining);
    assert!(!s.is_healthy());
    assert!(s.is_available());
    assert_eq!(ServerStatus::Maintenance.label(), "MAINTENANCE");
    s.set_response_time(1_500_000);
    assert_eq!(s.last_response_time(), Some(1_500_000));
}

#[test]
fn pool_lookup_and_status() {
    let mut pool = ServerPool::new(vec![server("a", 1, 1), server("b", 2, 1)]);
    assert_eq!(pool.server_count(), 2);
    assert_eq!(pool.healthy_count(), 2);
    pool.mark_server_down("a:1");
    assert_eq!(pool.healthy_count(), 1);
    assert_eq!(pool.get_healthy_servers().len(), 1);
    assert_eq!(pool.get_healthy_servers()[0].id(), "b:2");
    assert!(pool.get_server("a:1").is_some());
    assert!(pool.get_server("z:9").is_none());
    match pool.update_server_status("z:9", ServerStatus::Up) {
        Err(LoadBalancerError::InvalidBackendAddress(a)) => assert_eq!(a, "z:9"),
        _ => panic!("expected an invalid address"),
    }
    assert!(pool.update_server_status("a:1", ServerStatus::Draining).is_ok());
    assert_eq!(pool.get_available_servers().len(), 2);
    pool.mark_server_up("a:1");
    assert_eq!(pool.healthy_count(), 2);
}

#[test]
fn pool_add_remove() {
    let mut pool = ServerPool::new(Vec::new());
    pool.add_server(server("a", 1, 1));
    assert!(pool.get_server("a:1").is_some());
    assert!(pool.remove_server("a:1").is_ok());
    assert!(pool.get_server("a:1").is_none());
    match pool.remove_server("a:1") {
        Err(LoadBalancerError::InvalidBackendAddress(a)) => assert_eq!(a, "a:1"),
        _ => panic!("expected an invalid address"),
    }
    assert_eq!(pool.total_connections(), 0);
}

#[test]
fn breaker_opens_after_threshold_and_recovers() {
    let cfg = CircuitBreakerConfig { failure_threshold: 3, success_threshold: 2, timeout_ms: 1000 };
    let mut b = CircuitBreaker::new(cfg);
    assert_eq!(b.state(), CircuitState::Closed);
    b.record_failure_at(100);
    b.record_failure_at(100);
    assert_eq!(b.state(), CircuitState::Closed);
    b.record_failure_at(100);
    assert_eq!(b.state(), CircuitState::Open);
    assert!(!b.is_available_at(500));
    assert!(b.is_available_at(1100));
    assert_eq!(b.state(), CircuitState::HalfOpen);
    b.record_success();
    assert_eq!(b.state(), CircuitState::HalfOpen);
    b.record_success();
    assert_eq!(b.state(), CircuitState::Closed);
}

#[test]
fn half_open_failure_reopens() {
    let cfg = CircuitBreakerConfig { failure_threshold: 1, success_threshold: 2, timeout_ms: 10 };
    let mut b = CircuitBreaker::new(cfg);
    b.record_failure_at(0);
    assert_eq!(b.state(), CircuitState::Open);
    assert!(b.is_available_at(10));
    assert_eq!(b.state(), CircuitState::HalfOpen);
    b.record_failure_at(10);
    assert_eq!(b.state(), CircuitState::Open);
}

#[test]
fn default_breaker_settings() {
    let c = CircuitBreakerConfig::default();
    assert_eq!(c.failure_threshold, 5);
    assert_eq!(c.success_threshold, 2);
    assert_eq!(c.timeout_ms, 60_000);
}

#[test]
fn health_check_outcomes() {
    let checker = HealthChecker::new(HealthCheckConfig { interval_ms: 1000, timeout_ms: 100, max_failures: 2, enabled: true });
    let mut s = server("a", 1, 1);
    let v = checker.apply_outcome(&mut s, true, CheckOutcome::Failed);
    assert!(v == CheckVerdict::Failed { failures: 1, marked_down: false });
    assert!(s.is_healthy());
    let v = checker.apply_outcome(&mut s, true, CheckOutcome::Responded { status: 500, nanos: 5 });
    assert!(v == CheckVerdict::Failed { failures: 2, marked_down: true });
    assert!(!s.is_healthy());
    let v = checker.apply_outcome(&mut s, false, CheckOutcome::Responded { status: 204, nanos: 7 });
    assert!(v == CheckVerdict::Passed { recovered: true });
    assert!(s.is_healthy());
    assert_eq!(s.failure_count(), 0);
    assert_eq!(s.last_response_time(), Some(7));
    let v = checker.apply_outcome(&mut s, true, CheckOutcome::Responded { status: 399, nanos: 9 });
    assert!(v == CheckVerdict::Passed { recovered: false });
    let d = HealthCheckConfig::default();
    assert_eq!((d.interval_ms, d.timeout_ms, d.max_failures, d.enabled), (5000, 2000, 3, true));
}

#[test]
fn backends_from_command_line_text() {
    let s = parse_backend("10.0.0.1:8080", 7).unwrap();
    assert_eq!((s.host().as_str(), s.port(), s.weight()), ("10.0.0.1", 8080, 7));
    assert_eq!(parse_backend("h:+80", 1).unwrap().port(), 80);
    match parse_backend("10.0.0.1", 1) {
        Err(e) => {
            assert!(e == BackendSpecError::InvalidFormat("10.0.0.1".to_string()));
            assert_eq!(e.message(), "Invalid backend format: 10.0.0.1. Expected host:port");
        }
        Ok(_) => panic!("expected a refusal"),
    }
    assert!(matches!(parse_backend("a:b:c", 1), Err(BackendSpecError::InvalidFormat(_))));
    match parse_backend("h:70000", 1) {
        Err(e) => assert_eq!(e.message(), "Invalid port in backend: h:70000"),
        Ok(_) => panic!("expected a refusal"),
    }
    assert!(matches!(parse_backend("h:", 1), Err(BackendSpecError::InvalidPort(_))));
}

#[test]
fn replacing_a_server_writes_back_its_state() {
    let mut pool = ServerPool::new(vec![server("a", 1, 1)]);
    let mut copy = pool.get_server("a:1").unwrap();
    copy.increment_connections();
    assert!(pool.replace_server(copy).is_ok());
    assert_eq!(pool.get_server("a:1").unwrap().connection_count(), 1);
    assert_eq!(pool.total_connections(), 1);
    match pool.replace_server(server("z", 9, 1)) {
        Err(LoadBalancerError::InvalidBackendAddress(a)) => assert_eq!(a, "z:9"),
        _ => panic!("expected an invalid address"),
    }
}

#[test]
fn pool_index_follows_the_last_server_under_an_id() {
    let mut pool = ServerPool::new(vec![server("a", 1, 1), server("a", 1, 7)]);
    assert_eq!(pool.server_count(), 2);
    assert_eq!(pool.get_server("a:1").unwrap().weight(), 7);
    pool.mark_server_down("a:1");
    let all = pool.get_all_servers();
    assert!(all[0].is_healthy());
    assert!(!all[1].is_healthy());
    assert!(!pool.get_server("a:1").unwrap().is_healthy());
    pool.add_server(server("a", 1, 3));
    assert_eq!(pool.get_server("a:1").unwrap().weight(), 3);
    assert!(pool.get_server("a:1").unwrap().is_healthy());
    assert!(pool.remove_server("a:1").is_ok());
    assert_eq!(pool.server_count(), 0);
    assert!(pool.get_server("a:1").is_none());
}
