pub mod circuit_breaker;
pub mod health;
pub mod pool;
pub mod server;
pub mod address;
