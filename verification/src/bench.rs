//! Load-test settings: how many requests, how many at once, for how long.
use vstd::prelude::*;

verus! {

pub struct BenchmarkConfig {
    pub target_url: String,
    pub total_requests: u64,
    pub concurrency: usize,
    pub duration_secs: Option<u64>,
    pub keep_alive: bool,
    pub timeout_ms: u64,
}

impl Default for BenchmarkConfig {
    /// 100 000 requests, 500 at a time, to http://127.0.0.1:8080, with
    /// keep-alive and a 5 s timeout.
    fn default() -> (c: Self)
        ensures
            c.target_url@ == "http://127.0.0.1:8080"@,
            c.total_requests == 100_000,
            c.concurrency == 500,
            c.duration_secs is None,
            c.keep_alive,
            c.timeout_ms == 5000,
    {
        BenchmarkConfig {
            target_url: String::from_str("http://127.0.0.1:8080"),
            total_requests: 100_000,
            concurrency: 500,
            duration_secs: None,
            keep_alive: true,
            timeout_ms: 5000,
        }
    }
}

/// The concurrency of a stress test: a hundredth of the target rate, kept
/// within 500..=10000.
pub open spec fn stress_concurrency(target_rps: u64) -> int {
    let c = target_rps / 100;
    if c < 500 {
        500
    } else if c > 10000 {
        10000
    } else {
        c as int
    }
}

/// A stress test of `target`: `target_rps` requests per second for
/// `duration_secs` seconds, stopped at that time, with a 2 s timeout.
pub fn stress_test_config(target: &str, target_rps: u64, duration_secs: u64) -> (c: BenchmarkConfig)
    requires
        target_rps * duration_secs <= u64::MAX,
    ensures
        c.target_url@ == target@,
        c.total_requests == target_rps * duration_secs,
        c.concurrency == stress_concurrency(target_rps),
        c.duration_secs == Some(duration_secs),
        c.keep_alive,
        c.timeout_ms == 2000,
{
    let per_hundred = target_rps / 100;
    let concurrency: u64 = if per_hundred < 500 {
        500
    } else if per_hundred > 10000 {
        10000
    } else {
        per_hundred
    };
    BenchmarkConfig {
        target_url: target.to_string(),
        total_requests: target_rps * duration_secs,
        concurrency: concurrency as usize,
        duration_secs: Some(duration_secs),
        keep_alive: true,
        timeout_ms: 2000,
    }
}

/// A quick benchmark of `target`: 10 000 requests, 100 at a time, 5 s timeout.
pub fn quick_benchmark_config(target: &str) -> (c: BenchmarkConfig)
    ensures
        c.target_url@ == target@,
        c.total_requests == 10_000,
        c.concurrency == 100,
        c.duration_secs is None,
        c.keep_alive,
        c.timeout_ms == 5000,
{
    BenchmarkConfig {
        target_url: target.to_string(),
        total_requests: 10_000,
        concurrency: 100,
        duration_secs: None,
        keep_alive: true,
        timeout_ms: 5000,
    }
}

} // verus!
