use ultrabalancer::proxy::{
    admission, cache_ttl, copies_response_header, forwards_request_header, healthy_fraction, host_header,
    keeps_compressed, ready_answer, special_endpoint, target_uri, Admission, HttpVersion, SpecialEndpoint,
};
use ultrabalancer::cache::CacheControl;

#[test]
fn special_endpoints_are_recognised() {
    assert!(special_endpoint("/health") == Some(SpecialEndpoint::Health));
    assert!(special_endpoint("/metrics") == Some(SpecialEndpoint::Metrics));
    assert!(special_endpoint("/prometheus") == Some(SpecialEndpoint::Prometheus));
    assert!(special_endpoint("/ready") == Some(SpecialEndpoint::Ready));
    assert!(special_endpoint("/healthz").is_none());
    assert!(special_endpoint("/").is_none());
}

#[test]
fn admission_checks_in_order() {
    assert!(admission(true, Some(false), Some(false)) == Admission::ShuttingDown);
    assert!(admission(false, Some(false), Some(false)) == Admission::Forbidden);
    assert!(admission(false, Some(true), Some(false)) == Admission::RateLimited);
    assert!(admission(false, None, None) == Admission::Admitted);
    assert_eq!(Admission::ShuttingDown.status(), 503);
    assert_eq!(Admission::Forbidden.status(), 403);
    assert_eq!(Admission::RateLimited.status(), 429);
    assert_eq!(Admission::RateLimited.message(), "Rate limit exceeded");
}

#[test]
fn hop_by_hop_headers_stay_behind() {
    assert!(!forwards_request_header("host"));
    assert!(!forwards_request_header("connection"));
    assert!(!forwards_request_header("keep-alive"));
    assert!(!forwards_request_header("transfer-encoding"));
    assert!(forwards_request_header("accept"));
    assert!(!copies_response_header("content-length"));
    assert!(copies_response_header("content-type"));
}

#[test]
fn host_and_target_of_a_backend() {
    assert_eq!(host_header("10.0.0.1:8080"), "10.0.0.1");
    assert_eq!(host_header("backend"), "backend");
    assert_eq!(host_header(":80"), "");
    assert_eq!(target_uri("10.0.0.1:8080", Some("/a?b=1")), "http://10.0.0.1:8080/a?b=1");
    assert_eq!(target_uri("10.0.0.1:8080", None), "http://10.0.0.1:8080/");
}

#[test]
fn cache_ttl_prefers_s_maxage() {
    let mut cc = CacheControl::default();
    assert_eq!(cache_ttl(&cc), Some(300));
    cc.max_age = Some(60);
    assert_eq!(cache_ttl(&cc), Some(60));
    cc.s_maxage = Some(120);
    assert_eq!(cache_ttl(&cc), Some(120));
    cc.private = true;
    assert_eq!(cache_ttl(&cc), None);
}

#[test]
fn small_answers() {
    assert_eq!(ready_answer(2), (200, "ready"));
    assert_eq!(ready_answer(0), (503, "not ready"));
    assert_eq!(healthy_fraction(2, 3), "2/3");
    assert!(keeps_compressed(10, 11));
    assert!(!keeps_compressed(11, 11));
    assert_eq!(HttpVersion::Http2Only.description(), "HTTP/2 (h2c)");
}
