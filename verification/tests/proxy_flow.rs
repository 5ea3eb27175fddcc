use ultrabalancer::middleware::retry::RetryMiddleware;
use ultrabalancer::proxy::flow::{
    method_cacheable, proxy_start, proxy_step, unavailable_message, ProxyAction, ProxyEvent, ProxyPhase, ProxyPolicy, RequestRecord,
};

fn start(healthy: usize, sticky_index: Option<usize>, had_session: bool) -> ProxyEvent {
    ProxyEvent::Start {
        healthy,
        total: 3,
        unhealthy: vec!["10.0.0.3:80".to_string()],
        had_session,
        sticky_index,
        cacheable_method: true,
    }
}

#[test]
fn no_healthy_backend_is_a_503_naming_the_unhealthy() {
    let policy = ProxyPolicy { retry: None, sticky: false, caching: false };
    let ev = ProxyEvent::Start {
        healthy: 0,
        total: 3,
        unhealthy: vec!["a".to_string(), "b".to_string(), "c".to_string()],
        had_session: false,
        sticky_index: None,
        cacheable_method: false,
    };
    let (s, a) = proxy_step(&policy, &proxy_start(), ev);
    assert!(s.phase == ProxyPhase::Finished);
    match a {
        ProxyAction::Unavailable { unhealthy, total, record, release } => {
            assert_eq!(unhealthy.len(), 3);
            assert_eq!(total, 3);
            assert!(record == RequestRecord::Failed);
            assert_eq!(release, None);
        }
        _ => panic!("expected a 503"),
    }
    assert_eq!(
        unavailable_message(2, 3),
        "No healthy backends. 2 of 3 backends are unhealthy. Health checks are running."
    );
}

#[test]
fn sticky_backend_is_used_and_answer_cached() {
    let policy = ProxyPolicy { retry: None, sticky: true, caching: true };
    let (s, a) = proxy_step(&policy, &proxy_start(), start(2, Some(1), true));
    assert!(matches!(a, ProxyAction::Send { server: 1 }));
    let (s, a) = proxy_step(&policy, &s, ProxyEvent::Answered { status: 200, cache_ttl: Some(60) });
    assert!(s.phase == ProxyPhase::Finished);
    assert!(matches!(a, ProxyAction::Respond { server: 1, status: 200, cache_ttl: Some(60), set_cookie: false, record: RequestRecord::BackendSucceeded(1), release: Some(1) }));
}

#[test]
fn selection_then_new_cookie_and_no_cache_for_post() {
    let policy = ProxyPolicy { retry: None, sticky: true, caching: true };
    let mut ev = start(2, None, false);
    if let ProxyEvent::Start { ref mut cacheable_method, .. } = ev {
        *cacheable_method = method_cacheable("POST");
    }
    let (s, a) = proxy_step(&policy, &proxy_start(), ev);
    assert!(matches!(a, ProxyAction::Select));
    let (s, a) = proxy_step(&policy, &s, ProxyEvent::Selected(Some(0)));
    assert!(matches!(a, ProxyAction::Send { server: 0 }));
    let (_, a) = proxy_step(&policy, &s, ProxyEvent::Answered { status: 200, cache_ttl: Some(60) });
    assert!(matches!(a, ProxyAction::Respond { server: 0, status: 200, cache_ttl: None, set_cookie: true, .. }));
    let (s, _) = proxy_step(&policy, &proxy_start(), start(2, None, false));
    let (_, a) = proxy_step(&policy, &s, ProxyEvent::Selected(None));
    assert!(matches!(a, ProxyAction::SelectionFailed { release: None, .. }));
}

#[test]
fn retries_wait_from_attempt_zero_then_give_up() {
    let policy = ProxyPolicy { retry: Some(RetryMiddleware::new(2, vec![502])), sticky: false, caching: false };
    let (s, _) = proxy_step(&policy, &proxy_start(), start(1, Some(0), false));
    let (s, a) = proxy_step(&policy, &s, ProxyEvent::Answered { status: 502, cache_ttl: None });
    assert!(matches!(a, ProxyAction::RetryAfter { delay_attempt: 0, server: 0 }));
    let (s, a) = proxy_step(&policy, &s, ProxyEvent::Failed);
    assert!(matches!(a, ProxyAction::RetryAfter { delay_attempt: 1, server: 0 }));
    let (s2, a) = proxy_step(&policy, &s, ProxyEvent::Answered { status: 502, cache_ttl: None });
    assert!(matches!(a, ProxyAction::Respond { status: 502, .. }));
    assert!(s2.phase == ProxyPhase::Finished);
    let (_, a) = proxy_step(&policy, &s, ProxyEvent::Failed);
    assert!(matches!(a, ProxyAction::BadGateway { server: 0, record: RequestRecord::BackendFailed(0), release: Some(0) }));
    let (_, a) = proxy_step(&policy, &s2, ProxyEvent::Failed);
    assert!(matches!(a, ProxyAction::Ignore));
}
