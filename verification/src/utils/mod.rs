pub mod graceful_shutdown;
pub mod request_id;
pub mod sticky_session;
pub mod rate_limiter;
pub mod connection_pool;
