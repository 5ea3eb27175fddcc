//! Circuit breaker: after repeated failures a backend is cut off for a
//! while, then probed, and restored after enough successes.
use crate::clock::now_millis;
use vstd::prelude::*;

verus! {

#[derive(Debug, Clone, Copy, PartialEq, Eq, Structural)]
pub enum CircuitState {
    Closed,
    Open,
    HalfOpen,
}

#[derive(Debug, Clone, Copy)]
pub struct CircuitBreakerConfig {
    pub failure_threshold: u32,
    pub success_threshold: u32,
    /// How long the circuit stays open before a probe is let through.
    pub timeout_ms: u64,
}

impl Default for CircuitBreakerConfig {
    /// Five failures open the circuit, two successes close it, and a probe is
    /// let through after sixty seconds.
    fn default() -> (c: Self)
        ensures
            c.failure_threshold == 5,
            c.success_threshold == 2,
            c.timeout_ms == 60_000,
    {
        CircuitBreakerConfig { failure_threshold: 5, success_threshold: 2, timeout_ms: 60_000 }
    }
}

/// The breaker's state as plain values.
pub struct BreakerView {
    pub state: CircuitState,
    pub failure_count: u32,
    pub success_count: u32,
    /// Clock reading (milliseconds) when the circuit last opened or failed
    /// while open.
    pub last_failure: Option<u64>,
    pub failure_threshold: u32,
    pub success_threshold: u32,
    pub timeout_ms: u64,
}

/// The state after one recorded success.
pub open spec fn after_success(v: BreakerView) -> BreakerView {
    match v.state {
        CircuitState::Closed => BreakerView { failure_count: 0, ..v },
        CircuitState::HalfOpen => if v.success_count + 1 >= v.success_threshold {
            BreakerView { state: CircuitState::Closed, failure_count: 0, success_count: 0, ..v }
        } else {
            BreakerView { success_count: (v.success_count + 1) as u32, ..v }
        },
        CircuitState::Open => v,
    }
}

/// The state after one recorded failure at clock reading `now`.
pub open spec fn after_failure(v: BreakerView, now: u64) -> BreakerView {
    match v.state {
        CircuitState::Closed => if v.failure_count + 1 >= v.failure_threshold {
            BreakerView {
                state: CircuitState::Open,
                failure_count: (v.failure_count + 1) as u32,
                success_count: 0,
                last_failure: Some(now),
                ..v
            }
        } else {
            BreakerView { failure_count: (v.failure_count + 1) as u32, ..v }
        },
        CircuitState::HalfOpen => BreakerView {
            state: CircuitState::Open,
            success_count: 0,
            last_failure: Some(now),
            ..v
        },
        CircuitState::Open => BreakerView { last_failure: Some(now), ..v },
    }
}

/// Whether a request may pass at clock reading `now`: an open circuit lets
/// one through (and turns half-open) once `timeout_ms` has passed since the
/// last failure.
pub open spec fn open_timed_out(v: BreakerView, now: u64) -> bool {
    match v.last_failure {
        Some(t) => (if now >= t { now - t } else { 0 }) >= v.timeout_ms,
        None => false,
    }
}

pub open spec fn availability(v: BreakerView, now: u64) -> (bool, BreakerView) {
    match v.state {
        CircuitState::Closed => (true, v),
        CircuitState::HalfOpen => (true, v),
        CircuitState::Open => if open_timed_out(v, now) {
            (true, BreakerView { state: CircuitState::HalfOpen, success_count: 0, ..v })
        } else {
            (false, v)
        },
    }
}

/// The counters never overflow: a closed circuit holds fewer failures than
/// its threshold (or none), and only a half-open circuit counts successes,
/// fewer than its threshold.
pub open spec fn counters_in_range(v: BreakerView) -> bool {
    &&& v.state == CircuitState::Closed ==> v.failure_count < v.failure_threshold || v.failure_count
        == 0
    &&& v.state != CircuitState::HalfOpen ==> v.success_count == 0
    &&& v.state == CircuitState::HalfOpen ==> v.success_count < v.success_threshold || v.success_count
        == 0
}

pub struct CircuitBreaker {
    state: CircuitState,
    failure_count: u32,
    success_count: u32,
    last_failure_time: Option<u64>,
    config: CircuitBreakerConfig,
}

impl View for CircuitBreaker {
    type V = BreakerView;

    closed spec fn view(&self) -> BreakerView {
        BreakerView {
            state: self.state,
            failure_count: self.failure_count,
            success_count: self.success_count,
            last_failure: self.last_failure_time,
            failure_threshold: self.config.failure_threshold,
            success_threshold: self.config.success_threshold,
            timeout_ms: self.config.timeout_ms,
        }
    }
}

impl CircuitBreaker {
    #[verifier::type_invariant]
    spec fn counters_ok(&self) -> bool {
        counters_in_range(self@)
    }

    /// A closed circuit with no failures recorded.
    pub fn new(config: CircuitBreakerConfig) -> (b: Self)
        ensures
            b@ == (BreakerView {
                state: CircuitState::Closed,
                failure_count: 0,
                success_count: 0,
                last_failure: None,
                failure_threshold: config.failure_threshold,
                success_threshold: config.success_threshold,
                timeout_ms: config.timeout_ms,
            }),
    {
        CircuitBreaker {
            state: CircuitState::Closed,
            failure_count: 0,
            success_count: 0,
            last_failure_time: None,
            config,
        }
    }

    /// Whether a request may pass, given the clock reading `now`.
    pub fn is_available_at(&mut self, now: u64) -> (r: bool)
        ensures
            (r, final(self)@) == availability(old(self)@, now),
    {
        proof {
            use_type_invariant(&*self);
        }
        match self.state {
            CircuitState::Closed => true,
            CircuitState::Open => {
                if let Some(last_failure) = self.last_failure_time {
                    if now.saturating_sub(last_failure) >= self.config.timeout_ms {
                        self.transition_to_half_open();
                        return true;
                    }
                }
                false
            },
            CircuitState::HalfOpen => true,
        }
    }

    /// Whether a request may pass now.
    pub fn is_available(&mut self) -> (r: bool)
        ensures
            exists|now: u64| #[trigger] availability(old(self)@, now) == (r, final(self)@),
    {
        let now = now_millis();
        self.is_available_at(now)
    }

    pub fn record_success(&mut self)
        ensures
            final(self)@ == after_success(old(self)@),
    {
        proof {
            use_type_invariant(&*self);
        }
        match self.state {
            CircuitState::Closed => {
                self.failure_count = 0;
            },
            CircuitState::HalfOpen => {
                let count = self.success_count + 1;
                if count >= self.config.success_threshold {
                    self.transition_to_closed();
                } else {
                    self.success_count = count;
                }
            },
            CircuitState::Open => {},
        }
    }

    /// Records a failure seen at clock reading `now`.
    pub fn record_failure_at(&mut self, now: u64)
        ensures
            final(self)@ == after_failure(old(self)@, now),
    {
        proof {
            use_type_invariant(&*self);
        }
        match self.state {
            CircuitState::Closed => {
                let count = self.failure_count + 1;
                if count >= self.config.failure_threshold {
                    self.transition_to_open(count, now);
                } else {
                    self.failure_count = count;
                }
            },
            CircuitState::HalfOpen => {
                let count = self.failure_count;
                self.transition_to_open(count, now);
            },
            CircuitState::Open => {
                self.last_failure_time = Some(now);
            },
        }
    }

    /// Records a failure seen now.
    pub fn record_failure(&mut self)
        ensures
            exists|now: u64| final(self)@ == #[trigger] after_failure(old(self)@, now),
    {
        let now = now_millis();
        self.record_failure_at(now);
    }

    pub fn state(&self) -> (r: CircuitState)
        ensures
            r == self@.state,
    {
        self.state
    }

    fn transition_to_closed(&mut self)
        ensures
            final(self)@ == (BreakerView {
                state: CircuitState::Closed,
                failure_count: 0,
                success_count: 0,
                ..old(self)@
            }),
    {
        *self = CircuitBreaker {
            state: CircuitState::Closed,
            failure_count: 0,
            success_count: 0,
            last_failure_time: self.last_failure_time,
            config: self.config,
        };
    }

    fn transition_to_open(&mut self, failures: u32, now: u64)
        ensures
            final(self)@ == (BreakerView {
                state: CircuitState::Open,
                failure_count: failures,
                success_count: 0,
                last_failure: Some(now),
                ..old(self)@
            }),
    {
        *self = CircuitBreaker {
            state: CircuitState::Open,
            failure_count: failures,
            success_count: 0,
            last_failure_time: Some(now),
            config: self.config,
        };
    }

    fn transition_to_half_open(&mut self)
        requires
            old(self)@.state == CircuitState::Open,
        ensures
            final(self)@ == (BreakerView {
                state: CircuitState::HalfOpen,
                success_count: 0,
                ..old(self)@
            }),
    {
        *self = CircuitBreaker {
            state: CircuitState::HalfOpen,
            failure_count: self.failure_count,
            success_count: 0,
            last_failure_time: self.last_failure_time,
            config: self.config,
        };
    }
}

/// `k` failures in a row, all at clock reading `now`.
pub open spec fn failures(v: BreakerView, k: nat, now: u64) -> BreakerView
    decreases k,
{
    if k == 0 {
        v
    } else {
        after_failure(failures(v, (k - 1) as nat, now), now)
    }
}

/// `k` successes in a row.
pub open spec fn successes(v: BreakerView, k: nat) -> BreakerView
    decreases k,
{
    if k == 0 {
        v
    } else {
        after_success(successes(v, (k - 1) as nat))
    }
}

/// A closed circuit with no failures opens after exactly `failure_threshold`
/// consecutive failures, and not before.
pub proof fn lemma_threshold_failures_open(v: BreakerView, now: u64)
    requires
        v.state == CircuitState::Closed,
        v.failure_count == 0,
        v.failure_threshold >= 1,
    ensures
        failures(v, v.failure_threshold as nat, now).state == CircuitState::Open,
        forall|k: nat| k < v.failure_threshold ==> #[trigger] failures(v, k, now).state
            == CircuitState::Closed,
{
    assert forall|k: nat| k <= v.failure_threshold implies #[trigger] failures(v, k, now).state == (
    if k < v.failure_threshold {
        CircuitState::Closed
    } else {
        CircuitState::Open
    }) && (k < v.failure_threshold ==> failures(v, k, now).failure_count == k) && failures(v, k, now).failure_threshold == v.failure_threshold by {
        lemma_failures_count(v, k, now);
    }
}

proof fn lemma_failures_count(v: BreakerView, k: nat, now: u64)
    requires
        v.state == CircuitState::Closed,
        v.failure_count == 0,
        v.failure_threshold >= 1,
        k <= v.failure_threshold,
    ensures
        failures(v, k, now).failure_threshold == v.failure_threshold,
        k < v.failure_threshold ==> failures(v, k, now).state == CircuitState::Closed && failures(
            v,
            k,
            now,
        ).failure_count == k,
        k == v.failure_threshold ==> failures(v, k, now).state == CircuitState::Open,
    decreases k,
{
    if k > 0 {
        lemma_failures_count(v, (k - 1) as nat, now);
    }
}

/// A half-open circuit reopens on the first failure.
pub proof fn lemma_half_open_failure_reopens(v: BreakerView, now: u64)
    requires
        v.state == CircuitState::HalfOpen,
    ensures
        after_failure(v, now).state == CircuitState::Open,
        after_failure(v, now).last_failure == Some(now),
{
}

/// A half-open circuit that has just opened for probing closes after exactly
/// `success_threshold` consecutive successes, with both counters cleared.
pub proof fn lemma_threshold_successes_close(v: BreakerView)
    requires
        v.state == CircuitState::HalfOpen,
        v.success_count == 0,
        v.success_threshold >= 1,
    ensures
        successes(v, v.success_threshold as nat).state == CircuitState::Closed,
        successes(v, v.success_threshold as nat).failure_count == 0,
        successes(v, v.success_threshold as nat).success_count == 0,
        forall|k: nat| k < v.success_threshold ==> #[trigger] successes(v, k).state
            == CircuitState::HalfOpen,
{
    assert forall|k: nat| k < v.success_threshold implies #[trigger] successes(v, k).state
        == CircuitState::HalfOpen by {
        lemma_successes_count(v, k);
    }
    lemma_successes_count(v, v.success_threshold as nat);
}

proof fn lemma_successes_count(v: BreakerView, k: nat)
    requires
        v.state == CircuitState::HalfOpen,
        v.success_count == 0,
        v.success_threshold >= 1,
        k <= v.success_threshold,
    ensures
        successes(v, k).success_threshold == v.success_threshold,
        k < v.success_threshold ==> successes(v, k).state == CircuitState::HalfOpen && successes(
            v,
            k,
        ).success_count == k,
        k == v.success_threshold ==> successes(v, k).state == CircuitState::Closed && successes(
            v,
            k,
        ).failure_count == 0 && successes(v, k).success_count == 0,
    decreases k,
{
    if k > 0 {
        lemma_successes_count(v, (k - 1) as nat);
    }
}

/// An open circuit refuses requests until `timeout_ms` has passed since the
/// last failure; from then on it lets one through and turns half-open.
pub proof fn lemma_open_waits_for_timeout(v: BreakerView, now: u64)
    requires
        v.state == CircuitState::Open,
        v.last_failure is Some,
        now >= v.last_failure->0,
    ensures
        availability(v, now).0 <==> now >= v.last_failure->0 + v.timeout_ms,
        availability(v, now).0 ==> availability(v, now).1.state == CircuitState::HalfOpen,
        !availability(v, now).0 ==> availability(v, now).1 == v,
{
}

/// Every step keeps the counters in range.
pub proof fn lemma_steps_keep_counters(v: BreakerView, now: u64)
    requires
        counters_in_range(v),
    ensures
        counters_in_range(after_success(v)),
        counters_in_range(after_failure(v, now)),
        counters_in_range(availability(v, now).1),
{
}

/// A success clears the failures of a closed circuit: it stays closed with no
/// failure counted, so a closed circuit opens only after `failure_threshold`
/// failures with no success between them. From a fresh closed circuit, any
/// `k` failures short of the threshold, one success, and then any `m` failures
/// short of the threshold leave it closed.
pub proof fn lemma_success_clears_failures(v: BreakerView, now: u64, k: nat, m: nat)
    requires
        v.state == CircuitState::Closed,
        v.failure_count == 0,
        v.failure_threshold >= 1,
        k < v.failure_threshold,
        m < v.failure_threshold,
    ensures
        after_success(failures(v, k, now)).state == CircuitState::Closed,
        after_success(failures(v, k, now)).failure_count == 0,
        failures(after_success(failures(v, k, now)), m, now).state == CircuitState::Closed,
{
    lemma_failures_count(v, k, now);
    lemma_threshold_failures_open(v, now);
    let w = after_success(failures(v, k, now));
    assert(w.failure_threshold == v.failure_threshold);
    lemma_threshold_failures_open(w, now);
}

} // verus!
