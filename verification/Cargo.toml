[package]
name = "mock_imap"
version = "0.1.0"
edition = "2021"
publish = false

[dependencies]
rustls-pemfile = "1"
rustls = "0.21"
tokio-rustls = "0.24"
tokio = { version = "1", features = ["full"] }
async-imap = { version = "0.6", default-features = false, features = ["runtime-tokio"] }
async-native-tls = { version = "0.4", default-features = false, features = ["runtime-tokio"] }
futures = "0.3"
env_logger = "0.10"
log = "0.4"
