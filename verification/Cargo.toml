[package]
name = "keystroke"
version = "0.1.0"
edition = "2021"
publish = false

[dependencies]
keyring-core = "=1.0.1"
dbus-secret-service-keyring-store = { version = "=1.0.1", features = ["vendored", "crypto-rust"] }
base64 = "=0.22.1"
serde = { version = "=1.0.229", features = ["derive"] }
serde_json = "=1.0.154"
reqwest = { version = "=0.12.28", default-features = false, features = ["json", "rustls-tls"] }
tokio = { version = "=1.54.1", features = ["macros", "rt-multi-thread", "sync"] }
toml = "=1.1.8"
directories = "=6.0.0"
thiserror = "=2.0.21"
time = "=0.3.55"
tracing = "=0.1.44"
tracing-subscriber = { version = "=0.3.23", features = ["env-filter"] }
anyhow = "=1.0.104"
