//! The proxy's decisions around each request: what is refused before any
//! backend is asked, which headers travel on, where the request goes, what may
//! be cached, when an attempt is repeated; and the server's configuration.
pub mod flow;
pub mod websocket;

use crate::backend::server::{Server, host_port};
use crate::cache::CacheControl;
use crate::middleware::access_log::LogFormat;
use crate::middleware::compression::CompressionMiddleware;
use crate::middleware::ip_filter::{IpFilter, parsed_networks};
use crate::middleware::retry::RetryMiddleware;
use crate::text::{decimal, push_decimal, push_str, str_eq};
use crate::utils::rate_limiter::{no_ips, RateLimiter};
use crate::utils::sticky_session::StickySessionManager;
use vstd::prelude::*;

verus! {

/// Which HTTP the server speaks.
#[derive(Clone, Copy, PartialEq, Eq, Structural)]
pub enum HttpVersion {
    /// HTTP/1.1 only.
    Http1Only,
    /// HTTP/2 only, in clear text (h2c).
    Http2Only,
    /// HTTP/1.1 with upgrades (WebSocket); no HTTP/2 negotiation.
    Auto,
}

impl HttpVersion {
    /// How the protocol is named in the startup log.
    pub fn description(&self) -> (r: &'static str)
        ensures
            r@ == match *self {
                HttpVersion::Http1Only => "HTTP/1.1"@,
                HttpVersion::Http2Only => "HTTP/2 (h2c)"@,
                HttpVersion::Auto => "HTTP/1.1 with WebSocket upgrades"@,
            },
    {
        match self {
            HttpVersion::Http1Only => "HTTP/1.1",
            HttpVersion::Http2Only => "HTTP/2 (h2c)",
            HttpVersion::Auto => "HTTP/1.1 with WebSocket upgrades",
        }
    }
}

/// What the proxy server is built from.
pub struct ProxyServerConfig {
    pub listen_addr: String,
    pub http_version: HttpVersion,
    pub rate_limit_rps: Option<u32>,
    pub rate_limit_burst: Option<u32>,
    pub per_ip_rate_limit: Option<(u32, u32)>,
    pub ip_whitelist: Option<Vec<String>>,
    pub ip_blacklist: Option<Vec<String>>,
    pub cache_max_entries: Option<u64>,
    pub cache_ttl_secs: Option<u64>,
    pub compression_enabled: bool,
    pub compression_min_size: usize,
    pub retry_enabled: bool,
    pub retry_max_attempts: u32,
    pub sticky_sessions_enabled: bool,
    pub sticky_cookie_name: String,
    pub sticky_ttl_secs: u64,
    pub access_log_path: Option<String>,
    pub access_log_format: LogFormat,
    pub request_timeout_secs: u64,
    pub graceful_shutdown_timeout_secs: u64,
}

impl Default for ProxyServerConfig {
    fn default() -> (c: Self)
        ensures
            c.listen_addr@ == "0.0.0.0:8080"@,
            c.http_version == HttpVersion::Auto,
            c.rate_limit_rps is None,
            c.rate_limit_burst is None,
            c.per_ip_rate_limit is None,
            c.ip_whitelist is None,
            c.ip_blacklist is None,
            c.cache_max_entries is None,
            c.cache_ttl_secs is None,
            !c.compression_enabled,
            c.compression_min_size == 1024,
            !c.retry_enabled,
            c.retry_max_attempts == 3,
            !c.sticky_sessions_enabled,
            c.sticky_cookie_name@ == "SERVERID"@,
            c.sticky_ttl_secs == 3600,
            c.access_log_path is None,
            c.access_log_format == LogFormat::Combined,
            c.request_timeout_secs == 30,
            c.graceful_shutdown_timeout_secs == 30,
    {
        ProxyServerConfig {
            listen_addr: String::from_str("0.0.0.0:8080"),
            http_version: HttpVersion::Auto,
            rate_limit_rps: None,
            rate_limit_burst: None,
            per_ip_rate_limit: None,
            ip_whitelist: None,
            ip_blacklist: None,
            cache_max_entries: None,
            cache_ttl_secs: None,
            compression_enabled: false,
            compression_min_size: 1024,
            retry_enabled: false,
            retry_max_attempts: 3,
            sticky_sessions_enabled: false,
            sticky_cookie_name: String::from_str("SERVERID"),
            sticky_ttl_secs: 3600,
            access_log_path: None,
            access_log_format: LogFormat::Combined,
            request_timeout_secs: 30,
            graceful_shutdown_timeout_secs: 30,
        }
    }
}

/// The global rate and burst the configuration asks for: the burst defaults
/// to twice the rate.
pub open spec fn rate_limit_plan(rps: Option<u32>, burst: Option<u32>) -> Option<(u32, int)> {
    match rps {
        Some(r) => Some(
            (
                r,
                match burst {
                    Some(b) => b as int,
                    None => 2 * r,
                },
            ),
        ),
        None => None,
    }
}

/// The configuration's numbers are ones the rate limiter accepts (the
/// limiter's quota refuses 0, and twice a rate must fit in 32 bits).
pub open spec fn rate_limit_config_ok(c: &ProxyServerConfig) -> bool {
    match rate_limit_plan(c.rate_limit_rps, c.rate_limit_burst) {
        Some((r, b)) => r > 0 && 0 < b <= u32::MAX && (c.per_ip_rate_limit matches Some((ir, ib)) ==> ir > 0
            && ib > 0),
        None => true,
    }
}

/// Whether the configuration's rate limits are ones the rate limiter accepts.
pub fn rate_limits_valid(config: &ProxyServerConfig) -> (r: bool)
    ensures
        r == rate_limit_config_ok(config),
{
    match config.rate_limit_rps {
        Some(rps) => {
            let burst_ok = match config.rate_limit_burst {
                Some(b) => b > 0,
                None => rps <= u32::MAX / 2,
            };
            let per_ip_ok = match config.per_ip_rate_limit {
                Some((ir, ib)) => ir > 0 && ib > 0,
                None => true,
            };
            rps > 0 && burst_ok && per_ip_ok
        },
        None => true,
    }
}

/// The rate limiter the configuration asks for, if any.
pub fn rate_limiter_for(config: &ProxyServerConfig) -> (r: Option<RateLimiter>)
    requires
        rate_limit_config_ok(config),
    ensures
        r is Some <==> config.rate_limit_rps is Some,
        r matches Some(l) ==> rate_limit_plan(config.rate_limit_rps, config.rate_limit_burst) == Some(
            (l.global_quota().0, l.global_quota().1 as int),
        ),
        r matches Some(l) ==> match config.per_ip_rate_limit {
            Some((ir, ib)) => l.per_ip_quota_view() == Some((ir, ib)) && l.per_ip_view() == Some(no_ips()),
            None => l.per_ip_quota_view() is None && l.per_ip_view() is None,
        },
{
    match config.rate_limit_rps {
        Some(rps) => {
            let burst = match config.rate_limit_burst {
                Some(b) => b,
                None => rps * 2,
            };
            let limiter = RateLimiter::with_burst(rps, burst);
            match config.per_ip_rate_limit {
                Some((ip_rps, ip_burst)) => Some(limiter.with_per_ip_limit(ip_rps, ip_burst)),
                None => Some(limiter),
            }
        },
        None => None,
    }
}

fn copy_texts(v: &Option<Vec<String>>) -> (r: Vec<String>)
    ensures
        match v {
            Some(t) => r@ == t@,
            None => r@.len() == 0,
        },
{
    match v {
        Some(t) => t.clone(),
        None => Vec::new(),
    }
}

/// The address filter the configuration asks for: one when either list is
/// given, a missing list counting as empty.
pub fn ip_filter_for(config: &ProxyServerConfig) -> (r: Option<IpFilter>)
    ensures
        r is Some <==> (config.ip_whitelist is Some || config.ip_blacklist is Some),
        r matches Some(f) ==> f.whitelist() == parsed_networks(
            match config.ip_whitelist {
                Some(t) => t@,
                None => Seq::empty(),
            },
        ) && f.blacklist() == parsed_networks(
            match config.ip_blacklist {
                Some(t) => t@,
                None => Seq::empty(),
            },
        ),
{
    if config.ip_whitelist.is_some() || config.ip_blacklist.is_some() {
        let whitelist = copy_texts(&config.ip_whitelist);
        let blacklist = copy_texts(&config.ip_blacklist);
        proof {
            if config.ip_whitelist is None {
                assert(whitelist@ =~= Seq::<String>::empty());
            }
            if config.ip_blacklist is None {
                assert(blacklist@ =~= Seq::<String>::empty());
            }
        }
        Some(IpFilter::new().with_whitelist(whitelist).with_blacklist(blacklist))
    } else {
        None
    }
}

/// The response cache the configuration asks for, as (most entries, TTL in
/// seconds): the TTL defaults to 300 seconds.
pub fn cache_settings_for(config: &ProxyServerConfig) -> (r: Option<(u64, u64)>)
    ensures
        r == match config.cache_max_entries {
            Some(m) => Some(
                (
                    m,
                    match config.cache_ttl_secs {
                        Some(t) => t,
                        None => 300u64,
                    },
                ),
            ),
            None => None::<(u64, u64)>,
        },
{
    match config.cache_max_entries {
        Some(m) => Some(
            (
                m,
                match config.cache_ttl_secs {
                    Some(t) => t,
                    None => 300,
                },
            ),
        ),
        None => None,
    }
}

/// The compression the configuration asks for, at level 4.
pub fn compression_for(config: &ProxyServerConfig) -> (r: Option<CompressionMiddleware>)
    ensures
        r is Some <==> config.compression_enabled,
        r matches Some(m) ==> m.min_size() == config.compression_min_size && m.level() == 4,
{
    if config.compression_enabled {
        Some(CompressionMiddleware::new(config.compression_min_size, 4))
    } else {
        None
    }
}

/// The statuses retried when nothing else is said: 502, 503, 504.
pub open spec fn default_retry_statuses() -> Seq<u16> {
    seq![502u16, 503u16, 504u16]
}

/// The retry rules the configuration asks for, with the default statuses.
pub fn retry_for(config: &ProxyServerConfig) -> (r: Option<RetryMiddleware>)
    ensures
        r is Some <==> config.retry_enabled,
        r matches Some(m) ==> m.attempts_allowed() == config.retry_max_attempts && m.statuses()
            == default_retry_statuses(),
{
    if config.retry_enabled {
        let statuses: Vec<u16> = vec![502, 503, 504];
        assert(statuses@ =~= default_retry_statuses());
        Some(RetryMiddleware::new(config.retry_max_attempts, statuses))
    } else {
        None
    }
}

/// The sticky-session manager the configuration asks for.
pub fn sticky_sessions_for(config: &ProxyServerConfig) -> (r: Option<StickySessionManager>)
    ensures
        r is Some <==> config.sticky_sessions_enabled,
        r matches Some(m) ==> m.sessions().len() == 0 && m.name() == config.sticky_cookie_name@ && m.ttl()
            == config.sticky_ttl_secs && !m.secure(),
{
    if config.sticky_sessions_enabled {
        Some(StickySessionManager::new(config.sticky_cookie_name.as_str(), config.sticky_ttl_secs))
    } else {
        None
    }
}

/// Paths the proxy answers itself.
#[derive(Clone, Copy, PartialEq, Eq, Structural)]
pub enum SpecialEndpoint {
    Health,
    Metrics,
    Prometheus,
    Ready,
}

pub open spec fn special_endpoint_of(path: Seq<char>) -> Option<SpecialEndpoint> {
    if path == "/health"@ {
        Some(SpecialEndpoint::Health)
    } else if path == "/metrics"@ {
        Some(SpecialEndpoint::Metrics)
    } else if path == "/prometheus"@ {
        Some(SpecialEndpoint::Prometheus)
    } else if path == "/ready"@ {
        Some(SpecialEndpoint::Ready)
    } else {
        None
    }
}

/// The endpoint the proxy answers itself at `path`, if any.
pub fn special_endpoint(path: &str) -> (r: Option<SpecialEndpoint>)
    ensures
        r == special_endpoint_of(path@),
{
    if str_eq(path, "/health") {
        Some(SpecialEndpoint::Health)
    } else if str_eq(path, "/metrics") {
        Some(SpecialEndpoint::Metrics)
    } else if str_eq(path, "/prometheus") {
        Some(SpecialEndpoint::Prometheus)
    } else if str_eq(path, "/ready") {
        Some(SpecialEndpoint::Ready)
    } else {
        None
    }
}

/// What becomes of a request before any backend is asked.
#[derive(Clone, Copy, PartialEq, Eq, Structural)]
pub enum Admission {
    ShuttingDown,
    Forbidden,
    RateLimited,
    Admitted,
}

impl Admission {
    /// The status of the refusal (200 when admitted).
    pub fn status(&self) -> (r: u16)
        ensures
            r == match *self {
                Admission::ShuttingDown => 503u16,
                Admission::Forbidden => 403u16,
                Admission::RateLimited => 429u16,
                Admission::Admitted => 200u16,
            },
    {
        match self {
            Admission::ShuttingDown => 503,
            Admission::Forbidden => 403,
            Admission::RateLimited => 429,
            Admission::Admitted => 200,
        }
    }

    /// The error message of the refusal (empty when admitted).
    pub fn message(&self) -> (r: &'static str)
        ensures
            r@ == match *self {
                Admission::ShuttingDown => "Server shutting down"@,
                Admission::Forbidden => "Forbidden"@,
                Admission::RateLimited => "Rate limit exceeded"@,
                Admission::Admitted => ""@,
            },
    {
        match self {
            Admission::ShuttingDown => "Server shutting down",
            Admission::Forbidden => "Forbidden",
            Admission::RateLimited => "Rate limit exceeded",
            Admission::Admitted => "",
        }
    }
}

/// Admission of a request, checked in order: a server shutting down refuses
/// everything; then the address filter (if there is one) and the rate
/// limiter (if there is one) each may refuse. `None` stands for a check that
/// is not configured.
pub fn admission(shutting_down: bool, ip_allowed: Option<bool>, rate_ok: Option<bool>) -> (r: Admission)
    ensures
        r == (if shutting_down {
            Admission::ShuttingDown
        } else if ip_allowed == Some(false) {
            Admission::Forbidden
        } else if rate_ok == Some(false) {
            Admission::RateLimited
        } else {
            Admission::Admitted
        }),
{
    if shutting_down {
        Admission::ShuttingDown
    } else if ip_allowed == Some(false) {
        Admission::Forbidden
    } else if rate_ok == Some(false) {
        Admission::RateLimited
    } else {
        Admission::Admitted
    }
}

/// Request headers that are not passed on to the backend.
pub open spec fn hop_by_hop_request(name: Seq<char>) -> bool {
    name == "host"@ || name == "connection"@ || name == "keep-alive"@ || name == "transfer-encoding"@
}

/// Whether a client's request header (by its lower-case name) goes on to the backend.
pub fn forwards_request_header(name: &str) -> (r: bool)
    ensures
        r == !hop_by_hop_request(name@),
{
    !(str_eq(name, "host") || str_eq(name, "connection") || str_eq(name, "keep-alive") || str_eq(
        name,
        "transfer-encoding",
    ))
}

/// Whether a backend's response header (by its lower-case name) goes back to the client.
pub fn copies_response_header(name: &str) -> (r: bool)
    ensures
        r == !(name@ == "transfer-encoding"@ || name@ == "content-length"@),
{
    !(str_eq(name, "transfer-encoding") || str_eq(name, "content-length"))
}

/// The text before the first ':' (all of it when there is none).
pub open spec fn before_colon(s: Seq<char>) -> Seq<char>
    decreases s.len(),
{
    if s.len() == 0 {
        s
    } else if s[0] == ':' {
        Seq::empty()
    } else {
        seq![s[0]] + before_colon(s.drop_first())
    }
}

/// The `Host` header sent to a backend at `host:port`: the host part.
pub fn host_header(backend_addr: &str) -> (r: String)
    ensures
        r@ == before_colon(backend_addr@),
{
    let mut r = String::new();
    let chars = crate::text::chars_of(backend_addr);
    let mut i: usize = 0;
    let ghost s = backend_addr@;
    assert(s.skip(0) =~= s);
    while i < chars.len()
        invariant
            i <= chars@.len(),
            chars@ == s,
            s == backend_addr@,
            r@ + before_colon(s.skip(i as int)) == before_colon(s),
        decreases chars.len() - i,
    {
        assert(s.skip(i as int)[0] == chars@[i as int]);
        if chars[i] == ':' {
            assert(before_colon(s.skip(i as int)) =~= Seq::<char>::empty());
            assert(r@ + before_colon(s.skip(i as int)) =~= r@);
            return r;
        }
        assert(s.skip(i as int).drop_first() =~= s.skip(i + 1));
        assert(s.skip(i as int)[0] == chars@[i as int]);
        r.push(chars[i]);
        assert(r@ + before_colon(s.skip(i + 1)) =~= (r@.drop_last() + seq![chars@[i as int]]) + before_colon(s.skip(i + 1)));
        i = i + 1;
    }
    assert(s.skip(i as int) =~= Seq::<char>::empty());
    assert(r@ =~= r@ + Seq::<char>::empty());
    r
}

/// The URL a request goes to: `http://` and the backend address, then the
/// request's path and query (`/` when it has none).
pub fn target_uri(backend_addr: &str, path_and_query: Option<&str>) -> (r: String)
    ensures
        r@ == "http://"@ + backend_addr@ + match path_and_query {
            Some(p) => p@,
            None => "/"@,
        },
{
    let mut r = String::new();
    push_str(&mut r, "http://");
    push_str(&mut r, backend_addr);
    match path_and_query {
        Some(p) => push_str(&mut r, p),
        None => push_str(&mut r, "/"),
    }
    r
}

/// How long a response may be cached, by its `Cache-Control`: not at all
/// when it says `no-store` or `private`; else `s-maxage`, else `max-age`,
/// else 300 seconds.
pub fn cache_ttl(cc: &CacheControl) -> (r: Option<u64>)
    ensures
        r == (if !cc.no_store && !cc.private {
            Some(
                match cc.s_maxage {
                    Some(s) => s,
                    None => match cc.max_age {
                        Some(m) => m,
                        None => 300u64,
                    },
                },
            )
        } else {
            None::<u64>
        }),
{
    if !cc.no_store && !cc.private {
        Some(
            match cc.s_maxage {
                Some(s) => s,
                None => match cc.max_age {
                    Some(m) => m,
                    None => 300,
                },
            },
        )
    } else {
        None
    }
}

/// Whether an attempt is repeated: only with retry rules, when they say so,
/// and while attempts remain.
pub fn retry_again(retry: &Option<RetryMiddleware>, attempt: u32, status: Option<u16>, is_error: bool) -> (r: bool)
    ensures
        r == match retry {
            Some(m) => attempt < m.attempts_allowed() && (is_error || (status matches Some(s) && m.statuses().contains(
                s,
            ))),
            None => false,
        },
{
    match retry {
        Some(m) => m.should_retry(attempt, status, is_error) && attempt < m.max_attempts(),
        None => false,
    }
}

/// The readiness answer: 200 "ready" with a healthy backend, else 503 "not ready".
pub fn ready_answer(healthy_backends: usize) -> (r: (u16, &'static str))
    ensures
        healthy_backends > 0 ==> r.0 == 200 && r.1@ == "ready"@,
        healthy_backends == 0 ==> r.0 == 503 && r.1@ == "not ready"@,
{
    if healthy_backends > 0 {
        (200, "ready")
    } else {
        (503, "not ready")
    }
}

/// "healthy/total", as the health endpoint reports it.
pub fn healthy_fraction(healthy: usize, total: usize) -> (r: String)
    ensures
        r@ == decimal(healthy as nat) + "/"@ + decimal(total as nat),
{
    let mut r = String::new();
    push_decimal(&mut r, healthy as u64);
    push_str(&mut r, "/");
    push_decimal(&mut r, total as u64);
    assert(r@ =~= Seq::<char>::empty() + decimal(healthy as nat) + "/"@ + decimal(total as nat));
    r
}

/// Position of the first server at `addr` (`host:port`), if any: where a
/// sticky session sends its request.
pub fn sticky_server(servers: &Vec<Server>, addr: &str) -> (r: Option<usize>)
    ensures
        r matches Some(i) ==> i < servers@.len() && host_port(servers@[i as int]@.host, servers@[i as int]@.port)
            == addr@ && forall|k: int| 0 <= k < i ==> host_port(#[trigger] servers@[k]@.host, servers@[k]@.port)
            != addr@,
        r is None ==> forall|k: int| 0 <= k < servers@.len() ==> host_port(#[trigger] servers@[k]@.host, servers@[k]@.port)
            != addr@,
{
    let mut i: usize = 0;
    while i < servers.len()
        invariant
            i <= servers@.len(),
            forall|k: int| 0 <= k < i ==> host_port(#[trigger] servers@[k]@.host, servers@[k]@.port) != addr@,
        decreases servers.len() - i,
    {
        let a = servers[i].address();
        if str_eq(a.as_str(), addr) {
            return Some(i);
        }
        i = i + 1;
    }
    None
}

/// Whether a compressed body replaces the original: only when it is smaller.
pub fn keeps_compressed(compressed_len: usize, original_len: usize) -> (r: bool)
    ensures
        r == (compressed_len < original_len),
{
    compressed_len < original_len
}

} // verus!
