pub mod fastest_response;
pub mod ip_hash;
pub mod least_connections;
pub mod power_of_two;
pub mod random;
pub mod round_robin;
pub mod weighted;
pub mod spec;
