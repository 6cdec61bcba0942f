[package]
name = "moltis_core"
version = "0.1.0"
edition = "2021"
publish = false

[dependencies]
anyhow = "=1.0.104"
async-stream = "0.3"
async-trait = "=0.1.92"
futures = "=0.3.34"
reqwest = { version = "=0.12.28", features = ["json", "stream"] }
secrecy = "0.8"
serde = { version = "=1.0.229", features = ["derive"] }
serde_json = "=1.0.154"
tokio = { version = "=1.54.1", features = ["io-util", "macros", "net", "rt", "sync", "time"] }
tokio-stream = "0.1"
tokio-tungstenite = "=0.30.0"
tracing = "=0.1.44"
uuid = { version = "=1.29.0", features = ["v4"] }
