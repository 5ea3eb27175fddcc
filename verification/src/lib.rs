//! A load balancer's decision logic: backend selection algorithms, backend
//! state, circuit breaking, routing, request filtering, configuration checks
//! and the small text formats that travel with HTTP requests.
pub mod admin;
pub mod backend;
pub mod balancer;
pub mod bench;
pub mod cache;
pub mod clock;
pub mod config;
pub mod routing;
pub mod tables;
pub mod error;
pub mod keyed;
pub mod metrics;
pub mod middleware;
pub mod proxy;
pub mod text;
pub mod tls;
pub mod utils;
