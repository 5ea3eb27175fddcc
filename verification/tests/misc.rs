use ultrabalancer::config::{format_for_path, ConfigFormat};
use ultrabalancer::proxy::rate_limits_valid;
use ultrabalancer::bench::{quick_benchmark_config, stress_test_config, BenchmarkConfig};
use ultrabalancer::backend::server::Server;
use ultrabalancer::middleware::access_log::LogFormat;
use ultrabalancer::proxy::websocket::{is_websocket_request, is_websocket_upgrade, WebSocketCounters, WebSocketProxy, WebSocketStats};
use ultrabalancer::proxy::{
    cache_settings_for, compression_for, ip_filter_for, rate_limiter_for, retry_again, retry_for, sticky_server,
    sticky_sessions_for, HttpVersion, ProxyServerConfig,
};
use ultrabalancer::tls::TlsConfig;

fn h(name: &str, value: Option<&str>) -> (String, Option<String>) {
    (name.to_string(), value.map(|v| v.to_string()))
}

#[test]
fn websocket_handshakes() {
    let full = vec![h("Upgrade", Some("WebSocket")), h("Connection", Some("keep-alive, Upgrade")), h("Sec-WebSocket-Key", Some("k"))];
    assert!(is_websocket_upgrade(&full));
    assert!(is_websocket_request(&full));
    let no_key = vec![h("upgrade", Some("websocket")), h("connection", Some("upgrade"))];
    assert!(is_websocket_upgrade(&no_key));
    assert!(!is_websocket_request(&no_key));
    let unreadable = vec![h("upgrade", None)];
    assert!(!is_websocket_upgrade(&unreadable));
    assert!(!is_websocket_upgrade(&vec![h("upgrade", Some("h2c"))]));
}

#[test]
fn websocket_counters() {
    let mut c = WebSocketCounters::new();
    c.connection_opened();
    c.connection_opened();
    c.message_relayed();
    c.connection_closed();
    assert_eq!(WebSocketProxy::active_connections(&c), 1);
    assert_eq!(WebSocketProxy::total_messages(&c), 1);
    let s = WebSocketStats::current(&c);
    assert_eq!((s.active_connections, s.total_messages), (1, 1));
    let mut z = WebSocketCounters::new();
    z.connection_closed();
    assert_eq!(WebSocketProxy::active_connections(&z), u64::MAX);
    let p = WebSocketProxy::new("ws://10.0.0.1:9000/ws".to_string());
    assert_eq!(p.backend_url(), "ws://10.0.0.1:9000/ws");
}

#[test]
fn tls_settings() {
    let t = TlsConfig::new("cert.pem".to_string(), "key.pem".to_string());
    assert_eq!(t.alpn_protocols, vec![b"h2".to_vec(), b"http/1.1".to_vec()]);
    let t = t.with_alpn(vec!["http/1.1"]);
    assert_eq!(t.alpn_protocols, vec![b"http/1.1".to_vec()]);
    let c = t.clone();
    assert_eq!(c.cert_path, "cert.pem");
    assert_eq!(c.alpn_protocols, t.alpn_protocols);
}

#[test]
fn benchmark_settings() {
    let d = BenchmarkConfig::default();
    assert_eq!((d.total_requests, d.concurrency, d.timeout_ms), (100_000, 500, 5000));
    let s = stress_test_config("http://x", 100_000, 30);
    assert_eq!((s.total_requests, s.concurrency, s.duration_secs), (3_000_000, 1000, Some(30)));
    assert_eq!(stress_test_config("http://x", 1000, 1).concurrency, 500);
    assert_eq!(stress_test_config("http://x", 5_000_000, 1).concurrency, 10000);
    let q = quick_benchmark_config("http://y");
    assert_eq!((q.target_url.as_str(), q.total_requests, q.concurrency), ("http://y", 10_000, 100));
}

#[test]
fn proxy_configuration() {
    let d = ProxyServerConfig::default();
    assert_eq!(d.listen_addr, "0.0.0.0:8080");
    assert!(d.http_version == HttpVersion::Auto);
    assert!(d.access_log_format == LogFormat::Combined);
    assert!(rate_limiter_for(&d).is_none());
    assert!(ip_filter_for(&d).is_none());
    assert!(cache_settings_for(&d).is_none());
    assert!(compression_for(&d).is_none());
    assert!(retry_for(&d).is_none());
    assert!(sticky_sessions_for(&d).is_none());

    let mut c = ProxyServerConfig::default();
    c.rate_limit_rps = Some(10);
    c.per_ip_rate_limit = Some((1, 2));
    c.ip_blacklist = Some(vec!["10.0.0.0/8".to_string()]);
    c.cache_max_entries = Some(100);
    c.compression_enabled = true;
    c.retry_enabled = true;
    c.retry_max_attempts = 2;
    c.sticky_sessions_enabled = true;
    let l = rate_limiter_for(&c).unwrap();
    assert_eq!(l.per_ip_count(), 0);
    let f = ip_filter_for(&c).unwrap();
    assert_eq!((f.whitelist_count(), f.blacklist_count()), (0, 1));
    assert_eq!(cache_settings_for(&c), Some((100, 300)));
    c.cache_ttl_secs = Some(5);
    assert_eq!(cache_settings_for(&c), Some((100, 5)));
    assert!(compression_for(&c).is_some());
    let r = retry_for(&c);
    assert!(retry_again(&r, 0, Some(502), false));
    assert!(!retry_again(&r, 2, Some(502), false));
    assert!(!retry_again(&None, 0, None, true));
    let s = sticky_sessions_for(&c).unwrap();
    assert_eq!(s.cookie_name(), "SERVERID");
}

#[test]
fn sticky_server_lookup() {
    let list = vec![Server::new("a".to_string(), 1, 1), Server::new("b".to_string(), 2, 1)];
    assert_eq!(sticky_server(&list, "b:2"), Some(1));
    assert_eq!(sticky_server(&list, "c:3"), None);
}

#[test]
fn config_file_formats_and_rate_limit_checks() {
    assert!(format_for_path("lb.toml") == ConfigFormat::Toml);
    assert!(format_for_path("lb.yaml") == ConfigFormat::Yaml);
    assert!(format_for_path("lb.yml") == ConfigFormat::Yaml);
    assert!(format_for_path("lb.conf") == ConfigFormat::Yaml);
    let mut c = ProxyServerConfig::default();
    assert!(rate_limits_valid(&c));
    c.rate_limit_rps = Some(0);
    assert!(!rate_limits_valid(&c));
    c.rate_limit_rps = Some(u32::MAX);
    assert!(!rate_limits_valid(&c));
    c.rate_limit_burst = Some(5);
    assert!(rate_limits_valid(&c));
    c.per_ip_rate_limit = Some((0, 1));
    assert!(!rate_limits_valid(&c));
}
