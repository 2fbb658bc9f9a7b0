[package]
name = "netwatch"
version = "0.1.0"
edition = "2021"
publish = false

[dependencies]
anyhow = "=1.0.104"
axum = { version = "=0.8.9", features = ["ws"] }
chrono = "=0.4.45"
dns-lookup = "=2.1.1"
futures-util = "=0.3.34"
libbpf-rs = { version = "=0.24.8", default-features = false }
maxminddb = "=0.24.0"
reqwest = "=0.12.28"
rusqlite = "=0.41.1"
serde = { version = "=1.0.229", features = ["derive"] }
serde_json = "=1.0.154"
tokio = { version = "=1.54.1", features = ["full"] }
tower-http = { version = "=0.6.11", features = ["fs"] }
