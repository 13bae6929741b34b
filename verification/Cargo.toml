[package]
name = "tap_game"
version = "0.1.0"
edition = "2021"
publish = false

[dependencies]
anyhow = "1"
axum = "0.8"
chrono = "0.4"
console-subscriber = "0.4"
deadpool = "*"
deadpool-redis = "*"
dotenvy = "0.15"
fastrand = "2"
futures = "0.3"
hex = "0.4"
hmac = "0.12"
jsonwebtoken = "9"
num_cpus = "1"
rand = "0.8"
redis = { version = "*", features = ["tokio-comp", "script"] }
scylla = "1"
serde = { version = "1", features = ["derive"] }
serde_json = "1"
sha2 = "0.10"
socket2 = { version = "0.5", features = ["all"] }
thiserror = "1"
tokio = { version = "1", features = ["full"] }
tower = { version = "0.5", features = ["buffer", "limit", "util"] }
tower-http = { version = "0.6", features = ["compression-gzip", "cors", "limit", "trace"] }
tracing = "0.1"
tracing-subscriber = { version = "0.3", features = ["env-filter", "json"] }
urlencoding = "2"
uuid = { version = "1", features = ["v4", "serde"] }
