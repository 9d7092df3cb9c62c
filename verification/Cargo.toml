[package]
name = "peerjs_server"
version = "1.2.0"
edition = "2021"
publish = false

[dependencies]
axum = { version = "=0.7.9", features = ["ws"] }
axum-server = { version = "=0.7.3", default-features = false, features = ["tls-rustls-no-provider"] }
clap = { version = "=4.6.7", features = ["derive"] }
futures-util = "=0.3.34"
rustls = { version = "0.23", default-features = false, features = ["ring", "std", "tls12"] }
serde = { version = "=1.0.229", features = ["derive"] }
serde_json = "=1.0.154"
tokio = { version = "=1.54.1", features = ["full"] }
tokio-util = "=0.7.20"
toml = "=0.8.23"
tower-http = { version = "=0.5.2", features = ["catch-panic", "compression-full", "cors", "sensitive-headers", "trace"] }
tracing = "=0.1.44"
tracing-subscriber = { version = "=0.3.23", features = ["env-filter"] }
uuid = { version = "=1.29.0", features = ["v4"] }
