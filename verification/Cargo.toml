[package]
name = "remote_rpc_rs"
version = "0.1.0"
edition = "2021"
publish = false

[dependencies]
anyhow = "1"
async-trait = "0.1"
bytes = "1"
chrono = "=0.4.45"
clap = { version = "4", features = ["derive"] }
rumqttc = "=0.25.1"
rustls = "0.23"
tokio = { version = "1", features = ["full"] }
tracing = "0.1"
tracing-subscriber = { version = "0.3", features = ["env-filter"] }
webrtc = "=0.21.0"

[dev-dependencies]
serde_json = "1"
