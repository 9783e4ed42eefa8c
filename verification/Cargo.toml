[package]
name = "radiantkit_core"
version = "0.1.0"
edition = "2021"
publish = false

[dependencies]
uuid = { version = "=1.29.1", features = ["v4", "serde"] }
epaint = { version = "=0.22.0", features = ["serde"] }
serde = { version = "=1.0.229", features = ["derive"] }
serde_json = "1"
yrs = "0.16"
y-sync = { version = "0.3", features = ["net"] }
tokio = { version = "1", features = ["rt", "sync", "net", "macros"] }
tokio-tungstenite = "0.20"
futures-util = { version = "0.3", features = ["sink"] }
parking_lot = "0.12"
pollster = "0.3"
log = "0.4"
