use ultrabalancer::cache::{CacheControl, ResponseCacheRules};
use ultrabalancer::config::validator::{ConfigError, ConfigValidator};
use ultrabalancer::config::{
    default_health_check, BackendConfig, Config, LoggingConfig, MetricsConfig, TimeoutConfig, WorkerConfig,
};
use ultrabalancer::middleware::access_log::{combined_line, LogFormat};
use ultrabalancer::middleware::compression::{CompressionAlgo, CompressionMiddleware};
use ultrabalancer::middleware::ip_filter::{IpAddress, IpFilter};
use ultrabalancer::middleware::retry::{RetryMiddleware, RetryState};
use ultrabalancer::routing::{Route, Router};

fn config(backends: Vec<BackendConfig>) -> Config {
    Config {
        listen_address: "0.0.0.0".to_string(),
        listen_port: 8080,
        algorithm: "round-robin".to_string(),
        backends,
        workers: WorkerConfig::Count(4),
        max_connections: None,
        health_check: default_health_check(),
        timeout: TimeoutConfig::default(),
        logging: LoggingConfig::default(),
        metrics: MetricsConfig::default(),
        tls: None,
    }
}

fn backend(host: &str, port: u16, weight: u32) -> BackendConfig {
    BackendConfig { host: host.to_string(), port, weight, max_connections: None }
}

#[test]
fn config_validation_reports_first_problem() {
    assert!(config(vec![backend("a", 80, 1)]).validate().is_ok());
    assert!(matches!(config(vec![]).validate(), Err(ConfigError::NoBackends)));
    let mut c = config(vec![backend("a", 80, 1)]);
    c.listen_port = 0;
    assert!(matches!(c.validate(), Err(ConfigError::InvalidListenPort(0))));
    assert!(matches!(config(vec![backend("a", 0, 1)]).validate(), Err(ConfigError::InvalidBackendPort(0))));
    assert!(matches!(config(vec![backend("", 80, 1)]).validate(), Err(ConfigError::EmptyBackendHost)));
    assert!(matches!(config(vec![backend("a", 80, 0)]).validate(), Err(ConfigError::ZeroBackendWeight)));
    let mut c = config(vec![backend("a", 80, 1)]);
    c.health_check.interval_ms = 0;
    assert!(matches!(ConfigValidator::validate(&c), Err(ConfigError::ZeroHealthInterval)));
    c.health_check.interval_ms = 1;
    c.health_check.max_failures = 0;
    assert!(matches!(c.validate(), Err(ConfigError::ZeroMaxFailures)));
    assert_eq!(c.worker_count(), 4);
    c.workers = WorkerConfig::Auto;
    assert!(c.worker_count() >= 1);
}

#[test]
fn config_error_messages() {
    assert_eq!(ConfigError::NoBackends.message(), "At least one backend server is required");
    assert_eq!(ConfigError::InvalidListenPort(0).message(), "Invalid listen port: 0");
    assert_eq!(ConfigError::InvalidBackendPort(70).message(), "Invalid backend port: 70");
    assert_eq!(ConfigError::ZeroMaxFailures.message(), "Health check max failures must be greater than 0");
}

#[test]
fn ip_filter_blacklist_wins_and_whitelist_restricts() {
    let v4 = |a: u32| IpAddress { is_v6: false, bits: a as u128 };
    let open = IpFilter::new();
    assert!(open.is_allowed(v4(0x0a000001)));
    let f = IpFilter::new()
        .with_whitelist(vec!["10.0.0.0/8".to_string(), "not a network".to_string()])
        .with_blacklist(vec!["10.1.0.0/16".to_string()]);
    assert_eq!(f.whitelist_count(), 1);
    assert_eq!(f.blacklist_count(), 1);
    assert!(f.is_allowed(v4(0x0a000001)));
    assert!(!f.is_allowed(v4(0x0a010001)));
    assert!(!f.is_allowed(v4(0xc0a80001)));
    let mut g = IpFilter::new();
    assert!(g.add_to_blacklist("192.168.0.0/16"));
    assert!(!g.add_to_blacklist("192.168.0.0/99"));
    assert!(!g.is_allowed(v4(0xc0a80101)));
    assert!(g.remove_from_blacklist("192.168.0.0/16"));
    assert!(!g.remove_from_blacklist("192.168.0.0/16"));
    assert!(g.is_allowed(v4(0xc0a80101)));
}

#[test]
fn retry_rules() {
    let r = RetryMiddleware::new(3, vec![502, 503, 504]);
    assert!(r.should_retry(0, Some(503), false));
    assert!(!r.should_retry(0, Some(500), false));
    assert!(r.should_retry(2, None, true));
    assert!(!r.should_retry(3, None, true));
    assert!(!r.should_retry(0, None, false));
    assert_eq!(r.max_attempts(), 3);
    let mut s = RetryState::new();
    assert_eq!(s.attempt, 0);
    s.increment(Some("refused".to_string()), None);
    s.increment(None, Some(502));
    assert_eq!(s.attempt, 2);
    assert_eq!(s.last_status, Some(502));
}

#[test]
fn compression_choices() {
    assert!(CompressionAlgo::for_encoding("br") == CompressionAlgo::Brotli);
    assert!(CompressionAlgo::for_encoding("gzip") == CompressionAlgo::Gzip);
    assert_eq!(CompressionAlgo::Zstd.content_encoding(), Some("zstd"));
    assert_eq!(CompressionAlgo::Identity.content_encoding(), None);
    assert!(CompressionMiddleware::should_compress(Some("text/html; charset=utf-8")));
    assert!(CompressionMiddleware::should_compress(Some("application/json")));
    assert!(!CompressionMiddleware::should_compress(Some("image/png")));
    assert!(!CompressionMiddleware::should_compress(None));
    let m = CompressionMiddleware::new(100, 4);
    assert!(m.passes_through(99, CompressionAlgo::Gzip));
    assert!(m.passes_through(1000, CompressionAlgo::Identity));
    assert!(!m.passes_through(100, CompressionAlgo::Gzip));
}

#[test]
fn cache_rules() {
    assert!(ResponseCacheRules::should_cache(200, "GET"));
    assert!(ResponseCacheRules::should_cache(301, "HEAD"));
    assert!(!ResponseCacheRules::should_cache(200, "POST"));
    assert!(!ResponseCacheRules::should_cache(500, "GET"));
    let cc = ResponseCacheRules::parse_cache_control("public, max-age=600, s-maxage=60");
    assert!(cc.public && !cc.private && !cc.no_store);
    assert_eq!(cc.max_age, Some(600));
    assert_eq!(cc.s_maxage, Some(60));
    let cc = ResponseCacheRules::parse_cache_control("No-Store, max-age=abc");
    assert!(cc.no_store);
    assert_eq!(cc.max_age, None);
    let k1 = ResponseCacheRules::cache_key("GET", "/a", None);
    assert_eq!(k1, xxhash_rust::xxh3::xxh3_64(b"GET:/a"));
    assert_ne!(k1, ResponseCacheRules::cache_key("GET", "/b", None));
    assert_eq!(ResponseCacheRules::cache_key("GET", "/a", Some("gzip")), xxhash_rust::xxh3::xxh3_64(b"GET:/agzip"));
    assert_eq!(ResponseCacheRules::text_key("GET:/a"), k1);
    let d = CacheControl::default();
    assert!(!d.no_cache && d.max_age.is_none());
}

#[test]
fn routing_by_priority_and_rewrite() {
    let mut router = Router::new("default".to_string());
    router.add_route(Route::new("api".to_string()).with_path_prefix("/api").with_rewrite("/v2").with_priority(1));
    router.add_route(
        Route::new("admin".to_string()).with_path_prefix("/api/admin").with_methods(vec!["post"]).with_priority(5),
    );
    router.add_route(Route::new("site".to_string()).with_host("example.com"));
    assert_eq!(router.routes_count(), 3);
    let none: Vec<(String, String)> = Vec::new();
    let (g, p) = router.match_route("POST", "/api/admin/x", None, &none);
    assert_eq!((g.as_str(), p.as_str()), ("admin", "/api/admin/x"));
    let (g, p) = router.match_route("GET", "/api/admin/x", None, &none);
    assert_eq!((g.as_str(), p.as_str()), ("api", "/v2/admin/x"));
    let (g, _) = router.match_route("GET", "/", Some("www.example.com"), &none);
    assert_eq!(g, "site");
    let (g, p) = router.match_route("GET", "/other", Some("elsewhere.org"), &none);
    assert_eq!((g.as_str(), p.as_str()), ("default", "/other"));
    assert!(router.remove_route("api"));
    assert!(!router.remove_route("api"));
    assert_eq!(router.routes_count(), 2);
}

#[test]
fn route_headers_must_match() {
    let mut route = Route::new("beta".to_string());
    route.headers = Some(vec![("x-beta".to_string(), "1".to_string())]);
    let with = vec![("x-beta".to_string(), "1".to_string())];
    let wrong = vec![("x-beta".to_string(), "2".to_string())];
    assert!(route.matches("GET", "/", None, &with));
    assert!(!route.matches("GET", "/", None, &wrong));
    let exact = Route::new("x".to_string()).with_path_exact("/a");
    assert!(exact.matches("GET", "/a", None, &wrong));
    assert!(!exact.matches("GET", "/a/b", None, &wrong));
    assert_eq!(exact.apply_rewrite("/a"), "/a");
}

#[test]
fn combined_log_line() {
    let line = combined_line(
        "10.0.0.1",
        "10/Oct/2024:13:55:36 +0000",
        "GET",
        "/index.html",
        "HTTP/1.1",
        200,
        2326,
        None,
        Some("curl/8.0"),
        12,
    );
    assert_eq!(line, "10.0.0.1 - - [10/Oct/2024:13:55:36 +0000] \"GET /index.html HTTP/1.1\" 200 2326 \"-\" \"curl/8.0\" 12ms");
    assert!(LogFormat::Combined != LogFormat::Json);
}
