//! The load balancer's configuration, its defaults, and the checks a
//! configuration must pass before it is used.
pub mod validator;

use std::collections::HashMap;
use crate::text::{chars_of, ends_with, seq_ends_with};
use vstd::prelude::*;

verus! {

pub struct Config {
    pub listen_address: String,
    pub listen_port: u16,
    pub algorithm: String,
    pub backends: Vec<BackendConfig>,
    pub workers: WorkerConfig,
    pub max_connections: Option<usize>,
    pub health_check: HealthCheckConfig,
    pub timeout: TimeoutConfig,
    pub logging: LoggingConfig,
    pub metrics: MetricsConfig,
    pub tls: Option<TlsConfig>,
}

pub struct BackendConfig {
    pub host: String,
    pub port: u16,
    pub weight: u32,
    pub max_connections: Option<usize>,
}

/// How many worker threads to run: one per CPU, or a given count.
pub enum WorkerConfig {
    Auto,
    Count(usize),
}

impl Default for WorkerConfig {
    fn default() -> (w: Self)
        ensures
            w is Auto,
    {
        WorkerConfig::Auto
    }
}

pub struct HealthCheckConfig {
    pub enabled: bool,
    pub interval_ms: u64,
    pub max_failures: u32,
    pub path: String,
    pub expected_status: u16,
    pub timeout_ms: u64,
    pub headers: HashMap<String, String>,
    pub expected_body: Option<String>,
    pub circuit_breaker: Option<CircuitBreakerConfig>,
}

pub struct CircuitBreakerConfig {
    pub enabled: bool,
    pub failure_threshold: u32,
    pub success_threshold: u32,
    pub timeout_seconds: u64,
    pub half_open_requests: u32,
}

pub struct TimeoutConfig {
    pub connect_ms: u64,
    pub request_ms: u64,
    pub idle_ms: u64,
    pub keepalive_ms: u64,
}

pub struct LoggingConfig {
    pub level: String,
    pub format: String,
    pub output: String,
    pub max_size_mb: u64,
    pub max_files: usize,
}

pub struct MetricsConfig {
    pub enabled: bool,
    pub endpoint: String,
    pub prometheus_endpoint: String,
}

pub struct TlsConfig {
    pub enabled: bool,
    pub cert_path: String,
    pub key_path: String,
    pub key_password: Option<String>,
    pub client_auth: bool,
    pub min_version: String,
}

/// Weight of a backend whose weight is not given.
pub fn default_weight() -> (r: u32)
    ensures
        r == 100,
{
    100
}

pub fn default_true() -> (r: bool)
    ensures
        r,
{
    true
}

pub fn default_interval() -> (r: u64)
    ensures
        r == 5000,
{
    5000
}

pub fn default_max_failures() -> (r: u32)
    ensures
        r == 3,
{
    3
}

pub fn default_health_path() -> (r: String)
    ensures
        r@ == "/"@,
{
    "/".to_string()
}

pub fn default_expected_status() -> (r: u16)
    ensures
        r == 200,
{
    200
}

pub fn default_health_timeout() -> (r: u64)
    ensures
        r == 2000,
{
    2000
}

pub fn default_cb_failure_threshold() -> (r: u32)
    ensures
        r == 5,
{
    5
}

pub fn default_cb_success_threshold() -> (r: u32)
    ensures
        r == 2,
{
    2
}

pub fn default_cb_timeout() -> (r: u64)
    ensures
        r == 60,
{
    60
}

pub fn default_cb_half_open() -> (r: u32)
    ensures
        r == 3,
{
    3
}

pub fn default_connect_timeout() -> (r: u64)
    ensures
        r == 5000,
{
    5000
}

pub fn default_request_timeout() -> (r: u64)
    ensures
        r == 30000,
{
    30000
}

pub fn default_idle_timeout() -> (r: u64)
    ensures
        r == 60000,
{
    60000
}

pub fn default_keepalive() -> (r: u64)
    ensures
        r == 75000,
{
    75000
}

pub fn default_log_level() -> (r: String)
    ensures
        r@ == "info"@,
{
    "info".to_string()
}

pub fn default_log_format() -> (r: String)
    ensures
        r@ == "text"@,
{
    "text".to_string()
}

pub fn default_log_output() -> (r: String)
    ensures
        r@ == "stdout"@,
{
    "stdout".to_string()
}

pub fn default_log_max_size() -> (r: u64)
    ensures
        r == 100,
{
    100
}

pub fn default_log_max_files() -> (r: usize)
    ensures
        r == 10,
{
    10
}

pub fn default_metrics_endpoint() -> (r: String)
    ensures
        r@ == "/metrics"@,
{
    "/metrics".to_string()
}

pub fn default_prometheus_endpoint() -> (r: String)
    ensures
        r@ == "/prometheus"@,
{
    "/prometheus".to_string()
}

pub fn default_tls_version() -> (r: String)
    ensures
        r@ == "1.2"@,
{
    "1.2".to_string()
}

/// Health checking as it is when the configuration does not mention it:
/// enabled, every 5 s, 3 failures, path `/`, status 200, 2 s timeout.
pub fn default_health_check() -> (c: HealthCheckConfig)
    ensures
        c.enabled,
        c.interval_ms == 5000,
        c.max_failures == 3,
        c.path@ == "/"@,
        c.expected_status == 200,
        c.timeout_ms == 2000,
        c.headers@ == Map::<String, String>::empty(),
        c.expected_body is None,
        c.circuit_breaker is None,
{
    HealthCheckConfig {
        enabled: true,
        interval_ms: 5000,
        max_failures: 3,
        path: "/".to_string(),
        expected_status: 200,
        timeout_ms: 2000,
        headers: HashMap::new(),
        expected_body: None,
        circuit_breaker: None,
    }
}

impl Default for TimeoutConfig {
    fn default() -> (c: Self)
        ensures
            c.connect_ms == 5000,
            c.request_ms == 30000,
            c.idle_ms == 60000,
            c.keepalive_ms == 75000,
    {
        TimeoutConfig {
            connect_ms: default_connect_timeout(),
            request_ms: default_request_timeout(),
            idle_ms: default_idle_timeout(),
            keepalive_ms: default_keepalive(),
        }
    }
}

impl Default for LoggingConfig {
    fn default() -> (c: Self)
        ensures
            c.level@ == "info"@,
            c.format@ == "text"@,
            c.output@ == "stdout"@,
            c.max_size_mb == 100,
            c.max_files == 10,
    {
        LoggingConfig {
            level: default_log_level(),
            format: default_log_format(),
            output: default_log_output(),
            max_size_mb: default_log_max_size(),
            max_files: default_log_max_files(),
        }
    }
}

impl Default for MetricsConfig {
    fn default() -> (c: Self)
        ensures
            c.enabled,
            c.endpoint@ == "/metrics"@,
            c.prometheus_endpoint@ == "/prometheus"@,
    {
        MetricsConfig {
            enabled: true,
            endpoint: default_metrics_endpoint(),
            prometheus_endpoint: default_prometheus_endpoint(),
        }
    }
}

/// `num_cpus::get()`: the number of logical CPUs available to the process;
/// its documentation promises at least 1. The count depends on the machine.
#[verifier::external_body]
fn cpu_count() -> (r: usize)
    ensures
        r >= 1,
{
    num_cpus::get()
}

impl Config {
    /// Checks the configuration; see `validator::config_error`.
    pub fn validate(&self) -> (r: Result<(), validator::ConfigError>)
        ensures
            match validator::config_error(*self) {
                Some(e) => r == Err::<(), validator::ConfigError>(e),
                None => r is Ok,
            },
    {
        validator::ConfigValidator::validate(self)
    }

    /// The number of worker threads: the configured count, or one per
    /// available CPU.
    pub fn worker_count(&self) -> (r: usize)
        ensures
            self.workers matches WorkerConfig::Count(n) ==> r == n,
            self.workers is Auto ==> r >= 1,
    {
        match self.workers {
            WorkerConfig::Auto => cpu_count(),
            WorkerConfig::Count(n) => n,
        }
    }
}

/// How a configuration file is read.
#[derive(Debug, Clone, Copy, PartialEq, Eq, Structural)]
pub enum ConfigFormat {
    Yaml,
    Toml,
}

/// The format of a configuration file by its name: `.toml` files are TOML;
/// everything else (`.yaml`, `.yml`, or any other name) is read as YAML.
pub fn format_for_path(path: &str) -> (r: ConfigFormat)
    ensures
        r == (if !ends_with(path@, ".yaml"@) && !ends_with(path@, ".yml"@) && ends_with(path@, ".toml"@) {
            ConfigFormat::Toml
        } else {
            ConfigFormat::Yaml
        }),
{
    let p = chars_of(path);
    if seq_ends_with(&p, &chars_of(".yaml")) || seq_ends_with(&p, &chars_of(".yml")) {
        ConfigFormat::Yaml
    } else if seq_ends_with(&p, &chars_of(".toml")) {
        ConfigFormat::Toml
    } else {
        ConfigFormat::Yaml
    }
}

} // verus!
