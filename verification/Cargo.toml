[package]
name = "device_hub"
version = "0.1.0"
edition = "2021"
publish = false

[dependencies]
uuid = { version = "=1.29.0", features = ["v4", "serde"] }
log = { version = "=0.4.35", features = ["std"] }
serde = { version = "=1.0.229", features = ["derive"] }
colored = "=2.2.0"
sysinfo = "=0.29.11"
tokio = { version = "=1.54.1", features = ["rt", "rt-multi-thread", "net"] }
tokio-tungstenite = "=0.20.1"
futures = "=0.3.34"
url = "=2.5.8"
