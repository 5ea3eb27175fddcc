pub mod compression;
pub mod ip_filter;
pub mod retry;
pub mod access_log;
