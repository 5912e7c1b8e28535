[package]
name = "mofa-engine"
version = "0.1.0"
edition = "2021"
publish = false

[dependencies]
dashmap = "6"
sysinfo = "*"
serde_json = "1"
serde = { version = "1", features = ["derive"] }
toml = "*"
tokio = { version = "1", features = ["macros", "rt-multi-thread", "time", "sync", "fs", "process", "net", "io-util"] }
axum = "*"
tower-http = { version = "*", features = ["cors"] }
reqwest = { version = "*", default-features = false, features = ["json", "multipart", "stream", "rustls-tls"] }
tracing = "*"
tracing-subscriber = { version = "*", features = ["env-filter"] }
uuid = { version = "1", features = ["v4"] }
anyhow = "1"
clap = { version = "4", features = ["derive"] }
dirs = "*"
thiserror = "*"
parking_lot = "*"
async-trait = "*"
base64 = "*"
tokio-stream = "*"
