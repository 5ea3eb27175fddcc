//! The errors that backend selection and pool management report.
use vstd::prelude::*;

verus! {

/// `std::io::Error`, carried unopened inside `LoadBalancerError::IoError`.
#[verifier::external_type_specification]
#[verifier::external_body]
pub struct ExIoError(std::io::Error);

#[derive(Debug)]
pub enum LoadBalancerError {
    NoHealthyBackends,
    BackendSelectionFailed(String),
    InvalidBackendAddress(String),
    ConfigError(String),
    HealthCheckFailed { backend: String, reason: String },
    PoolExhausted,
    RequestTimeout(u64),
    ConnectionRefused(String),
    RateLimitExceeded,
    CircuitBreakerOpen(String),
    ProxyError(String),
    IoError(std::io::Error),
    ParseError(String),
}

} // verus!
