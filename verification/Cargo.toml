[package]
name = "yta_rs"
version = "0.1.0"
edition = "2021"
publish = false

[dependencies]
quick-xml = "0.28"
chrono = "*"
env_logger = "*"
futures = "*"
log = "*"
reqwest = { version = "*", features = ["cookies"] }
reqwest_cookie_store = "*"
reqwest-middleware = "*"
reqwest-retry = "*"
serde = { version = "*", features = ["derive"] }
serde-aux = "*"
serde_json = "*"
thiserror = "*"
tokio = { version = "*", features = ["full"] }
tokio-retry = "*"
tokio-stream = "*"
