//! The course of one proxied request, as a state machine: the program tells
//! it what happened (the request arrived, a backend was selected, the backend
//! answered or failed) and it answers with what to do next (refuse, select,
//! send, wait and send again, respond). Which metrics a reply counts goes with
//! the reply.
use crate::cache::{cacheable_method, cacheable_status, ResponseCacheRules};
use crate::middleware::retry::RetryMiddleware;
use crate::text::{decimal, push_decimal, push_str};
use vstd::prelude::*;

verus! {

/// Where a request stands.
#[derive(Clone, Copy, PartialEq, Eq, Structural)]
pub enum ProxyPhase {
    /// Nothing decided yet.
    Starting,
    /// Waiting for the selector's choice.
    Selecting,
    /// An attempt is out to the chosen backend.
    Sending,
    /// A reply has been decided.
    Finished,
}

/// The state of one request.
#[derive(Clone, Copy, PartialEq, Eq, Structural)]
pub struct ProxyState {
    pub phase: ProxyPhase,
    /// Index, among the healthy servers, of the backend the request goes to.
    pub server: usize,
    /// Retries made so far.
    pub attempt: u32,
    /// Whether the request's sticky-session cookie named a backend.
    pub had_session: bool,
    /// Whether the request's method allows caching its response.
    pub cacheable_method: bool,
}

/// What the server is configured to do around each request.
pub struct ProxyPolicy {
    /// The retry rules, if retries are on.
    pub retry: Option<RetryMiddleware>,
    /// Whether sticky sessions are on.
    pub sticky: bool,
    /// Whether responses are cached.
    pub caching: bool,
}

/// What happened.
pub enum ProxyEvent {
    /// The request arrived. `healthy` servers are up, out of `total`; the
    /// `unhealthy` ones are named. `had_session` tells whether a sticky
    /// cookie named a backend, and `sticky_index` where that backend stands
    /// among the healthy servers, if it does.
    Start {
        healthy: usize,
        total: usize,
        unhealthy: Vec<String>,
        had_session: bool,
        sticky_index: Option<usize>,
        cacheable_method: bool,
    },
    /// The selector chose a healthy server (by index), or failed.
    Selected(Option<usize>),
    /// The backend answered with `status`; `cache_ttl` is how long its
    /// `Cache-Control` lets the answer be kept, if at all.
    Answered { status: u16, cache_ttl: Option<u64> },
    /// The request to the backend failed.
    Failed,
}

/// The counts a finished request adds to the metrics.
#[derive(Clone, Copy, PartialEq, Eq, Structural)]
pub enum RequestRecord {
    /// One failed request, and no backend's count.
    Failed,
    /// One failed request, and one failed request of the backend (by index).
    BackendFailed(usize),
    /// One successful request, and one successful request of the backend.
    BackendSucceeded(usize),
}

/// What to do next. `Send` opens a connection to its server, counted until
/// a reply gives it back (`release`).
pub enum ProxyAction {
    /// Reply 503: no backend is healthy (see `unavailable_text`). Counts one
    /// failed request.
    Unavailable { unhealthy: Vec<String>, total: usize, record: RequestRecord, release: Option<usize> },
    /// Run the selector over the healthy servers.
    Select,
    /// Reply 503 "Backend selection failed". Counts one failed request.
    SelectionFailed { record: RequestRecord, release: Option<usize> },
    /// Send the request to the healthy server at `server`.
    Send { server: usize },
    /// Wait the retry delay of attempt `delay_attempt` (0 before the first
    /// retry), then send the request to `server` again.
    RetryAfter { delay_attempt: u32, server: usize },
    /// Reply 502 "Backend request failed". Counts one failed request, and one
    /// failed request of the backend `server`.
    BadGateway { server: usize, record: RequestRecord, release: Option<usize> },
    /// Relay the backend's answer with `status`; keep it in the cache for
    /// `cache_ttl` seconds if that is given; set a new sticky cookie bound to
    /// `server` if `set_cookie`. Counts one successful request, and one
    /// successful request of the backend `server`.
    Respond {
        server: usize,
        status: u16,
        cache_ttl: Option<u64>,
        set_cookie: bool,
        record: RequestRecord,
        release: Option<usize>,
    },
    /// The event does not fit where the request stands: nothing to do.
    Ignore,
}

/// Whether an attempt is repeated: only with retry rules, when they say so,
/// and while attempts remain.
pub open spec fn may_retry(retry: Option<RetryMiddleware>, attempt: u32, status: Option<u16>, is_error: bool) -> bool {
    match retry {
        Some(m) => attempt < m.attempts_allowed() && (is_error || (status matches Some(s) && m.statuses().contains(s))),
        None => false,
    }
}

/// A request before anything is decided.
pub open spec fn initial_state() -> ProxyState {
    ProxyState { phase: ProxyPhase::Starting, server: 0, attempt: 0, had_session: false, cacheable_method: false }
}

/// The next state and action after `e`.
pub open spec fn proxy_transition(p: ProxyPolicy, s: ProxyState, e: ProxyEvent) -> (ProxyState, ProxyAction) {
    match e {
        ProxyEvent::Start { healthy, total, unhealthy, had_session, sticky_index, cacheable_method } => {
            if s.phase != ProxyPhase::Starting {
                (s, ProxyAction::Ignore)
            } else {
                let base = ProxyState { had_session, cacheable_method, ..s };
                if healthy == 0 {
                    (ProxyState { phase: ProxyPhase::Finished, ..base }, ProxyAction::Unavailable {
                        unhealthy,
                        total,
                        record: RequestRecord::Failed,
                        release: None,
                    })
                } else if sticky_index matches Some(i) && i < healthy {
                    (
                        ProxyState { phase: ProxyPhase::Sending, server: sticky_index->0, attempt: 0, ..base },
                        ProxyAction::Send { server: sticky_index->0 },
                    )
                } else {
                    (ProxyState { phase: ProxyPhase::Selecting, ..base }, ProxyAction::Select)
                }
            }
        },
        ProxyEvent::Selected(choice) => {
            if s.phase != ProxyPhase::Selecting {
                (s, ProxyAction::Ignore)
            } else {
                match choice {
                    Some(i) => (ProxyState { phase: ProxyPhase::Sending, server: i, attempt: 0, ..s }, ProxyAction::Send { server: i }),
                    None => (
                        ProxyState { phase: ProxyPhase::Finished, ..s },
                        ProxyAction::SelectionFailed { record: RequestRecord::Failed, release: None },
                    ),
                }
            }
        },
        ProxyEvent::Answered { status, cache_ttl } => {
            if s.phase != ProxyPhase::Sending {
                (s, ProxyAction::Ignore)
            } else if may_retry(p.retry, s.attempt, Some(status), false) {
                (
                    ProxyState { attempt: (s.attempt + 1) as u32, ..s },
                    ProxyAction::RetryAfter { delay_attempt: s.attempt, server: s.server },
                )
            } else {
                (
                    ProxyState { phase: ProxyPhase::Finished, ..s },
                    ProxyAction::Respond {
                        server: s.server,
                        status,
                        cache_ttl: if p.caching && s.cacheable_method && cacheable_status(status) {
                            cache_ttl
                        } else {
                            None
                        },
                        set_cookie: p.sticky && !s.had_session,
                        record: RequestRecord::BackendSucceeded(s.server),
                        release: Some(s.server),
                    },
                )
            }
        },
        ProxyEvent::Failed => {
            if s.phase != ProxyPhase::Sending {
                (s, ProxyAction::Ignore)
            } else if may_retry(p.retry, s.attempt, None, true) {
                (
                    ProxyState { attempt: (s.attempt + 1) as u32, ..s },
                    ProxyAction::RetryAfter { delay_attempt: s.attempt, server: s.server },
                )
            } else {
                (
                    ProxyState { phase: ProxyPhase::Finished, ..s },
                    ProxyAction::BadGateway {
                        server: s.server,
                        record: RequestRecord::BackendFailed(s.server),
                        release: Some(s.server),
                    },
                )
            }
        },
    }
}

/// The state of a request before anything is decided.
pub fn proxy_start() -> (s: ProxyState)
    ensures
        s == initial_state(),
{
    ProxyState { phase: ProxyPhase::Starting, server: 0, attempt: 0, had_session: false, cacheable_method: false }
}

fn retry_allowed(retry: &Option<RetryMiddleware>, attempt: u32, status: Option<u16>, is_error: bool) -> (r: bool)
    ensures
        r == may_retry(*retry, attempt, status, is_error),
{
    match retry {
        Some(m) => m.should_retry(attempt, status, is_error),
        None => false,
    }
}

fn status_cacheable(status: u16) -> (r: bool)
    ensures
        r == cacheable_status(status),
{
    status == 200 || status == 203 || status == 204 || status == 206 || status == 300 || status == 301 || status
        == 308 || status == 404 || status == 410
}

/// One step of a request: the next state and what to do; see
/// `proxy_transition`.
pub fn proxy_step(p: &ProxyPolicy, s: &ProxyState, e: ProxyEvent) -> (r: (ProxyState, ProxyAction))
    ensures
        r == proxy_transition(*p, *s, e),
{
    match e {
        ProxyEvent::Start { healthy, total, unhealthy, had_session, sticky_index, cacheable_method } => {
            if s.phase != ProxyPhase::Starting {
                return (*s, ProxyAction::Ignore);
            }
            let base = ProxyState { had_session, cacheable_method, ..*s };
            if healthy == 0 {
                (
                    ProxyState { phase: ProxyPhase::Finished, ..base },
                    ProxyAction::Unavailable { unhealthy, total, record: RequestRecord::Failed, release: None },
                )
            } else {
                match sticky_index {
                    Some(i) if i < healthy => (
                        ProxyState { phase: ProxyPhase::Sending, server: i, attempt: 0, ..base },
                        ProxyAction::Send { server: i },
                    ),
                    _ => (ProxyState { phase: ProxyPhase::Selecting, ..base }, ProxyAction::Select),
                }
            }
        },
        ProxyEvent::Selected(choice) => {
            if s.phase != ProxyPhase::Selecting {
                return (*s, ProxyAction::Ignore);
            }
            match choice {
                Some(i) => (ProxyState { phase: ProxyPhase::Sending, server: i, attempt: 0, ..*s }, ProxyAction::Send { server: i }),
                None => (
                    ProxyState { phase: ProxyPhase::Finished, ..*s },
                    ProxyAction::SelectionFailed { record: RequestRecord::Failed, release: None },
                ),
            }
        },
        ProxyEvent::Answered { status, cache_ttl } => {
            if s.phase != ProxyPhase::Sending {
                return (*s, ProxyAction::Ignore);
            }
            if retry_allowed(&p.retry, s.attempt, Some(status), false) {
                (
                    ProxyState { attempt: s.attempt + 1, ..*s },
                    ProxyAction::RetryAfter { delay_attempt: s.attempt, server: s.server },
                )
            } else {
                let keep = if p.caching && s.cacheable_method && status_cacheable(status) {
                    cache_ttl
                } else {
                    None
                };
                (
                    ProxyState { phase: ProxyPhase::Finished, ..*s },
                    ProxyAction::Respond {
                        server: s.server,
                        status,
                        cache_ttl: keep,
                        set_cookie: p.sticky && !s.had_session,
                        record: RequestRecord::BackendSucceeded(s.server),
                        release: Some(s.server),
                    },
                )
            }
        },
        ProxyEvent::Failed => {
            if s.phase != ProxyPhase::Sending {
                return (*s, ProxyAction::Ignore);
            }
            if retry_allowed(&p.retry, s.attempt, None, true) {
                (
                    ProxyState { attempt: s.attempt + 1, ..*s },
                    ProxyAction::RetryAfter { delay_attempt: s.attempt, server: s.server },
                )
            } else {
                (
                    ProxyState { phase: ProxyPhase::Finished, ..*s },
                    ProxyAction::BadGateway {
                        server: s.server,
                        record: RequestRecord::BackendFailed(s.server),
                        release: Some(s.server),
                    },
                )
            }
        },
    }
}

/// Whether responses to `method` may be cached (GET and HEAD).
pub fn method_cacheable(method: &str) -> (r: bool)
    ensures
        r == cacheable_method(method@),
{
    ResponseCacheRules::should_cache(200, method)
}

/// The message of the 503 reply when no backend is healthy.
pub open spec fn unavailable_text(unhealthy: nat, total: nat) -> Seq<char> {
    "No healthy backends. "@ + decimal(unhealthy) + " of "@ + decimal(total)
        + " backends are unhealthy. Health checks are running."@
}

/// The message of the 503 reply when no backend is healthy; see
/// `unavailable_text`.
pub fn unavailable_message(unhealthy: usize, total: usize) -> (r: String)
    ensures
        r@ == unavailable_text(unhealthy as nat, total as nat),
{
    let mut s = String::new();
    push_str(&mut s, "No healthy backends. ");
    push_decimal(&mut s, unhealthy as u64);
    push_str(&mut s, " of ");
    push_decimal(&mut s, total as u64);
    push_str(&mut s, " backends are unhealthy. Health checks are running.");
    assert(s@ =~= unavailable_text(unhealthy as nat, total as nat));
    s
}

/// Retries end: from any state, a backend that keeps failing gets at most
/// as many retries as the rules allow, after which the request ends in 502.
pub proof fn lemma_retries_end_in_bad_gateway(p: ProxyPolicy, s: ProxyState)
    requires
        s.phase == ProxyPhase::Sending,
        p.retry matches Some(m) ==> s.attempt >= m.attempts_allowed(),
    ensures
        proxy_transition(p, s, ProxyEvent::Failed).1 == (ProxyAction::BadGateway {
            server: s.server,
            record: RequestRecord::BackendFailed(s.server),
            release: Some(s.server),
        }),
        proxy_transition(p, s, ProxyEvent::Failed).0.phase == ProxyPhase::Finished,
{
}

/// The request goes to the server the selector chose: while selecting, a
/// choice of server `i` sends the request to `i`, and every later step of the
/// request (a retry, the response, the 502) names that same `i`.
pub proof fn lemma_selected_server_is_used(p: ProxyPolicy, s: ProxyState, i: usize, status: u16, ttl: Option<u64>)
    requires
        s.phase == ProxyPhase::Selecting,
    ensures
        ({
            let (t, a) = proxy_transition(p, s, ProxyEvent::Selected(Some(i)));
            &&& t.phase == ProxyPhase::Sending
            &&& t.server == i
            &&& a matches ProxyAction::Send { server } && server == i
            &&& match proxy_transition(p, t, ProxyEvent::Answered { status, cache_ttl: ttl }).1 {
                ProxyAction::RetryAfter { server, .. } => server == i,
                ProxyAction::Respond { server, record, release, .. } => server == i && record
                    == RequestRecord::BackendSucceeded(i) && release == Some(i),
                _ => false,
            }
            &&& match proxy_transition(p, t, ProxyEvent::Failed).1 {
                ProxyAction::RetryAfter { server, .. } => server == i,
                ProxyAction::BadGateway { server, record, release } => server == i && record
                    == RequestRecord::BackendFailed(i) && release == Some(i),
                _ => false,
            }
        }),
{
}

} // verus!
