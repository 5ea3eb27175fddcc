use ultrabalancer::utils::connection_pool::ConnectionPool;
use ultrabalancer::utils::graceful_shutdown::{DrainStep, GracefulShutdown};
use ultrabalancer::utils::rate_limiter::{rate_decision, RateLimiter};
use ultrabalancer::utils::request_id::{RequestId, SequentialIds};
use ultrabalancer::utils::sticky_session::StickySessionManager;

#[test]
fn request_ids() {
    let id = RequestId::generate();
    assert_eq!(id.len(), 36);
    for (i, c) in id.chars().enumerate() {
        if i == 8 || i == 13 || i == 18 || i == 23 {
            assert_eq!(c, '-');
        } else {
            assert!(c.is_ascii_hexdigit() && !c.is_ascii_uppercase());
        }
    }
    assert_eq!(RequestId::generate_short().len(), 16);
    let bytes = [0x01u8, 0x23, 0x45, 0x67, 0x89, 0xab, 0xcd, 0xef, 0, 0, 0, 0, 0, 0, 0, 0];
    assert_eq!(RequestId::short_from_bytes(&bytes), "0123456789abcdef");
    assert_eq!(RequestId::sequential(0x1a2b, 7), "0000000000001a2b-00000007");
    assert_eq!(RequestId::sequential(1, 0x1_0000_0005), "0000000000000001-00000005");
    let mut ids = SequentialIds::new();
    let s = RequestId::generate_sequential(&mut ids);
    assert_eq!(s.len(), 25);
    assert!(s.ends_with("-00000000"));
    let s2 = RequestId::generate_sequential(&mut ids);
    assert!(s2.ends_with("-00000001"));
}

#[test]
fn request_id_from_headers() {
    let headers = vec![
        ("x-correlation-id".to_string(), Some("corr".to_string())),
        ("X-REQUEST-ID".to_string(), None),
        ("x-request-id".to_string(), Some("req".to_string())),
    ];
    assert_eq!(RequestId::extract_from_headers(&headers), Some("corr".to_string()));
    let headers = vec![("x-request-id".to_string(), Some("req".to_string()))];
    assert_eq!(RequestId::extract_from_headers(&headers), Some("req".to_string()));
    assert_eq!(RequestId::extract_from_headers(&Vec::new()), None);
}

#[test]
fn sticky_sessions_bind_and_expire() {
    let mut m = StickySessionManager::new("SERVERID", 60);
    assert_eq!(m.cookie_name(), "SERVERID");
    m.set_backend_at("s1", "10.0.0.1:80", 1_000);
    assert_eq!(m.get_backend_at("s1", 30_000), Some("10.0.0.1:80".to_string()));
    assert_eq!(m.get_backend_at("s1", 89_999), Some("10.0.0.1:80".to_string()));
    assert_eq!(m.get_backend_at("s1", 150_000), None);
    assert_eq!(m.active_sessions(), 0);
    m.set_backend_at("a", "b1", 0);
    m.set_backend_at("b", "b1", 0);
    m.set_backend_at("c", "b2", 0);
    assert_eq!(m.active_sessions(), 3);
    let per = m.sessions_per_backend();
    assert_eq!(per.len(), 2);
    assert_eq!(per.get("b1"), Some(&2));
    assert_eq!(per.get("b2"), Some(&1));
    m.remove_session("a");
    assert_eq!(m.active_sessions(), 2);
    m.set_backend_at("c", "b3", 100_000);
    m.cleanup_expired_at(120_000);
    assert_eq!(m.active_sessions(), 1);
    assert_eq!(m.get_backend_at("c", 120_000), Some("b3".to_string()));
}

#[test]
fn sticky_cookies() {
    let m = StickySessionManager::new("SERVERID", 3600);
    assert_eq!(m.extract_session_from_cookie("a=1; SERVERID=abc; b=2"), Some("abc".to_string()));
    assert_eq!(m.extract_session_from_cookie("a=1"), None);
    assert_eq!(m.create_cookie("abc"), "SERVERID=abc; Path=/; HttpOnly; SameSite=Lax; Max-Age=3600");
    let s = StickySessionManager::new("SID", 10).with_secure_cookies(true);
    assert!(s.is_secure());
    assert_eq!(s.create_cookie("x"), "SID=x; Path=/; HttpOnly; Secure; SameSite=Lax; Max-Age=10");
    let sid = m.generate_session_id();
    assert_eq!(sid.len(), 32);
    assert!(sid.chars().all(|c| c.is_ascii_hexdigit() && !c.is_ascii_uppercase()));
}

#[test]
fn graceful_shutdown_counts_and_drains() {
    let mut g = GracefulShutdown::new(2);
    assert!(!g.is_shutting_down());
    g.connection_started();
    g.connection_started();
    g.connection_ended();
    assert_eq!(g.active_connections(), 1);
    assert!(g.start_shutdown());
    assert!(!g.start_shutdown());
    assert!(g.is_shutting_down());
    assert!(g.drain_step(1000) == DrainStep::Wait);
    assert!(g.drain_step(2001) == DrainStep::TimedOut);
    g.connection_ended();
    g.connection_ended();
    assert_eq!(g.active_connections(), 0);
    assert!(g.drain_step(0) == DrainStep::Drained);
}

#[test]
fn rate_limiter_tables() {
    let mut l = RateLimiter::with_burst(1000, 1000).with_per_ip_limit(1, 1);
    assert_eq!(l.per_ip_count(), 0);
    assert!(l.check_ip_at("1.1.1.1", 100));
    assert!(!l.check_ip_at("1.1.1.1", 100));
    assert_eq!(l.per_ip_count(), 1);
    assert!(l.ip_bucket("1.1.1.1").is_some());
    assert!(l.ip_bucket("2.2.2.2").is_none());
    l.touch_ip_at("2.2.2.2", 400);
    assert_eq!(l.per_ip_count(), 2);
    l.cleanup_stale_limiters_at(300, 500);
    assert_eq!(l.per_ip_count(), 1);
    assert!(l.ip_bucket("2.2.2.2").is_some());
    l.cleanup_stale_limiters_at(300, 1000);
    assert_eq!(l.per_ip_count(), 0);
}

#[test]
fn global_limiter_bursts() {
    let l = RateLimiter::with_burst(1, 3);
    assert!(l.check());
    assert!(l.check());
    assert!(l.check());
    assert!(!l.check());
    let mut plain = RateLimiter::new(5);
    assert_eq!(plain.per_ip_count(), 0);
    assert!(plain.check_ip("9.9.9.9"));
    assert_eq!(plain.per_ip_count(), 0);
    let d = RateLimiter::default();
    assert!(d.check());
}

#[test]
fn connection_permits() {
    let mut p = ConnectionPool::new(2);
    assert_eq!(p.available("b"), 2);
    assert_eq!(p.active_count("b"), 0);
    assert!(p.acquire("b"));
    assert!(p.acquire("b"));
    assert!(!p.acquire("b"));
    assert_eq!(p.active_count("b"), 2);
    p.release("b");
    assert_eq!(p.available("b"), 1);
    p.release("b");
    p.release("b");
    assert_eq!(p.available("b"), 2);
    assert!(p.use_client("b"));
    assert!(!p.use_client("b"));
    assert_eq!(p.requests_count("b"), 2);
    assert_eq!(p.total_connections(), 1);
    p.remove_backend("b");
    assert_eq!(p.requests_count("b"), 0);
    assert_eq!(p.available("b"), 2);
    assert!(p.use_client("b"));
    assert_eq!(p.total_connections(), 2);
}

#[test]
fn rate_decision_needs_both_buckets() {
    assert!(rate_decision(true, None));
    assert!(rate_decision(true, Some(true)));
    assert!(!rate_decision(true, Some(false)));
    assert!(!rate_decision(false, None));
    assert!(!rate_decision(false, Some(true)));
}
