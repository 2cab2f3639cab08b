[package]
name = "slova"
version = "0.1.0"
edition = "2021"
publish = false

[dependencies]
blake3 = "=1.8.7"
rand = "=0.8.8"
serde = { version = "=1.0.229", features = ["derive"] }
serde_json = "=1.0.154"
uuid = { version = "=1.29.0", features = ["v4", "serde"] }
tokio = { version = "=1.54.1", features = ["full"] }
dashmap = "=6.2.1"
chrono = "=0.4.45"
sha2 = "=0.10.9"
secrecy = "=0.8.0"
reqwest = { version = "=0.12.28", default-features = false, features = ["json", "multipart", "rustls-tls"] }
sqlx = { version = "=0.8.6", default-features = false, features = ["sqlite", "runtime-tokio"] }
tracing = "=0.1.44"
tracing-appender = "=0.2.5"
tracing-subscriber = { version = "=0.3.23", features = ["env-filter"] }
tempfile = "=3.27.0"
keyring = { version = "=3.6.3", features = ["apple-native", "windows-native", "linux-native"] }
