[package]
name = "cobalt"
version = "0.1.0"
edition = "2021"
publish = false

[dependencies]
flate2 = "1"
openssl = "0.10"
num-bigint = "0.4"
uuid = { version = "1", features = ["v3", "serde"] }
base64 = "0.22"
bytes = "1"
tokio = { version = "1", features = ["full"] }
tokio-util = { version = "0.7", features = ["codec"] }
futures-util = "0.3"
serde = { version = "1", features = ["derive"] }
serde_json = "1"
figment = { version = "0.10", features = ["toml", "env"] }
fastnbt = "2"
reqwest = { version = "0.12", features = ["json"] }
tracing = "0.1"
tracing-subscriber = "0.3"
dashmap = "6"
parking_lot = "0.12"
bytemuck = "1"
thiserror = "2"
