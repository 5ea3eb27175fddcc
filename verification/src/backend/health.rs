//! What a health check concludes about a server from the answer it got.
use super::server::{Server, ServerStatus, ServerView};
use vstd::prelude::*;

verus! {

#[derive(Debug, Clone, Copy)]
pub struct HealthCheckConfig {
    pub interval_ms: u64,
    pub timeout_ms: u64,
    pub max_failures: u32,
    pub enabled: bool,
}

impl Default for HealthCheckConfig {
    /// Checks every 5 s with a 2 s timeout; 3 failures mark a server down.
    fn default() -> (c: Self)
        ensures
            c.interval_ms == 5000,
            c.timeout_ms == 2000,
            c.max_failures == 3,
            c.enabled,
    {
        HealthCheckConfig { interval_ms: 5000, timeout_ms: 2000, max_failures: 3, enabled: true }
    }
}

/// What a probe of a server produced.
#[derive(Debug, Clone, Copy)]
pub enum CheckOutcome {
    /// The server answered with this HTTP status after this many nanoseconds.
    Responded { status: u16, nanos: u128 },
    /// The request failed (connection refused, timeout, ...).
    Failed,
}

/// What the check concluded.
#[derive(Debug, Clone, Copy, PartialEq, Eq, Structural)]
pub enum CheckVerdict {
    /// The server answered well; `recovered` when it had been unhealthy.
    Passed { recovered: bool },
    /// The check failed; `failures` in a row so far, `marked_down` when this
    /// failure took the server out.
    Failed { failures: u32, marked_down: bool },
}

/// A 2xx or 3xx answer counts as healthy.
pub open spec fn is_success_status(status: u16) -> bool {
    200 <= status < 400
}

/// The checker: its settings, and what it does with each probe's outcome.
pub struct HealthChecker {
    pub config: HealthCheckConfig,
}

impl HealthChecker {
    pub fn new(config: HealthCheckConfig) -> (c: Self)
        ensures
            c.config == config,
    {
        HealthChecker { config }
    }

    /// Applies one probe's outcome to the server it was sent to.
    ///
    /// A success status clears the failure count and records the response
    /// time; a server that was not healthy when the probe started is marked up
    /// again. Anything else counts one more failure, and a server that was
    /// healthy is marked down once the count reaches `max_failures`.
    pub fn apply_outcome(&self, server: &mut Server, was_healthy: bool, outcome: CheckOutcome) -> (v:
        CheckVerdict)
        requires
            old(server)@.fail_count < u32::MAX,
        ensures
            match outcome {
                CheckOutcome::Responded { status, nanos } if is_success_status(status) => {
                    let cleared = ServerView {
                        fail_count: 0,
                        last_response_time: Some(nanos),
                        ..old(server)@
                    };
                    &&& v == CheckVerdict::Passed { recovered: !was_healthy }
                    &&& was_healthy ==> final(server)@ == cleared
                    &&& !was_healthy ==> (ServerView {
                        success_count: cleared.success_count.wrapping_add(1),
                        ..cleared
                    }).status_set(final(server)@, ServerStatus::Up)
                },
                _ => {
                    let failures = (old(server)@.fail_count + 1) as u32;
                    let counted = ServerView { fail_count: failures, ..old(server)@ };
                    let down = failures >= self.config.max_failures && was_healthy;
                    &&& v == CheckVerdict::Failed { failures, marked_down: down }
                    &&& down ==> counted.status_set(final(server)@, ServerStatus::Down)
                    &&& !down ==> final(server)@ == counted
                },
            },
    {
        match outcome {
            CheckOutcome::Responded { status, nanos } => {
                if 200 <= status && status < 400 {
                    server.reset_failures();
                    server.set_response_time(nanos);
                    if !was_healthy {
                        server.mark_healthy();
                    }
                    return CheckVerdict::Passed { recovered: !was_healthy };
                }
            },
            CheckOutcome::Failed => {},
        }
        self.handle_failure(server, was_healthy)
    }

    fn handle_failure(&self, server: &mut Server, was_healthy: bool) -> (v: CheckVerdict)
        requires
            old(server)@.fail_count < u32::MAX,
        ensures
            ({
                let failures = (old(server)@.fail_count + 1) as u32;
                let counted = ServerView { fail_count: failures, ..old(server)@ };
                let down = failures >= self.config.max_failures && was_healthy;
                &&& v == CheckVerdict::Failed { failures, marked_down: down }
                &&& down ==> counted.status_set(final(server)@, ServerStatus::Down)
                &&& !down ==> final(server)@ == counted
            }),
    {
        let failures = server.increment_failures();
        let down = failures >= self.config.max_failures && was_healthy;
        if down {
            server.mark_unhealthy();
        }
        CheckVerdict::Failed { failures, marked_down: down }
    }
}

} // verus!
