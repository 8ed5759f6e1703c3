[package]
name = "cybion_worker"
version = "0.2.0"
edition = "2021"
publish = false

[dependencies]
anyhow = "1"
flate2 = "1"
fs2 = "0.4"
futures-util = "0.3"
hex = "0.4"
process-wrap = { version = "9", features = ["tokio1"] }
reqwest = { version = "0.12", default-features = false, features = ["json", "stream", "rustls-tls"] }
self-replace = "1"
serde = { version = "1", features = ["derive"] }
serde_json = "1"
sha2 = "0.10"
sysinfo = "0.37"
tar = "0.4"
tempfile = "3"
tokio = { version = "1", features = ["full"] }
tokio-tungstenite = "0.27"
toml = "0.9"
tracing = "0.1"
tracing-subscriber = { version = "0.3", features = ["env-filter"] }
url = "2"
uuid = { version = "1", features = ["v4"] }
