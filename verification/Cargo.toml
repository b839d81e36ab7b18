[package]
name = "octos_app"
version = "0.1.0"
edition = "2021"
publish = false

[dependencies]
url = "2"
serde = { version = "1", features = ["derive"] }
serde_json = "1"
log = "0.4"
tokio = { version = "1", features = ["rt-multi-thread", "sync", "time", "macros", "net"] }
tokio-tungstenite = "*"
futures-util = "0.3"
chrono = "0.4"
robius-open = "*"
