[package]
name = "ultrabalancer"
version = "1.0.0"
edition = "2021"
publish = false

[dependencies]
xxhash-rust = { version = "=0.8.19", features = ["xxh3"] }
fastrand = "=2.5.0"
uuid = { version = "=1.29.0", features = ["v4"] }
num_cpus = "=1.17.0"
ipnet = "=2.12.2"
governor = "=0.6.3"
dashmap = "=6.2.1"
tokio = { version = "=1.54.1", features = ["full"] }
hyper = { version = "=1.12.0", features = ["full"] }
hyper-util = { version = "=0.1.21", features = ["full"] }
http-body-util = "=0.1.5"
bytes = "=1.12.1"
reqwest = { version = "=0.12.28", default-features = false, features = ["rustls-tls"] }
serde = { version = "=1.0.229", features = ["derive"] }
serde_json = "=1.0.154"
serde_yaml = "=0.9.34"
toml = "=0.8.23"
clap = { version = "=4.6.7", features = ["derive"] }
tracing = "=0.1.44"
tracing-subscriber = { version = "=0.3.23", features = ["env-filter"] }
anyhow = "=1.0.104"
ahash = "0.8"
chrono = { version = "=0.4.45", features = ["serde"] }
async-compression = { version = "=0.4.52", features = ["tokio", "gzip", "brotli", "zstd"] }
rustls = { version = "=0.23.46", default-features = false, features = ["ring", "std", "tls12", "logging"] }
rustls-pemfile = "=2.2.0"
tokio-rustls = { version = "=0.26.6", default-features = false, features = ["ring", "tls12", "logging"] }
tokio-tungstenite = "=0.24.0"
futures = "=0.3.34"
moka = { version = "=0.12.16", features = ["future"] }
