[package]
name = "socket_server_manager"
version = "0.1.0"
edition = "2021"
publish = false

[dependencies]
regex = "=1.13.1"
uuid = { version = "=1.29.0", features = ["v4"] }
chrono = "=0.4.45"
serde = { version = "=1.0.229", features = ["derive"] }
serde_json = "=1.0.154"
axum = { version = "=0.7.9", features = ["ws"] }
tokio = { version = "=1.54.1", features = ["rt-multi-thread", "macros", "net", "time", "sync"] }
nanoid = "=0.4.0"
futures-util = "=0.3.34"
tokio-tungstenite = "=0.24.0"
socketioxide = "0.18"
hyper-util = { version = "=0.1.21", features = ["server-auto", "tokio", "service"] }
tower = "=0.5.3"
tower-http = { version = "0.6", features = ["cors"] }
tokio-rustls = { version = "0.26", default-features = false, features = ["ring", "tls12", "logging"] }
rustls-pemfile = "2"
