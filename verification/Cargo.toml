[package]
name = "relayer"
version = "0.1.0"
edition = "2021"
publish = false

[dependencies]
candid = "=0.10.39"
config = { version = "=0.14.1", default-features = false, features = ["toml"] }
eyre = "=0.6.14"
ic-agent = "=0.37.1"
matrix-sdk = { version = "=0.7.1", default-features = false, features = ["rustls-tls"] }
redis = { version = "=0.25.5", default-features = false, features = ["tokio-comp"] }
serde = { version = "=1.0.229", features = ["derive"] }
serde_json = "=1.0.154"
serde_with = { version = "3", default-features = false, features = ["macros"] }
tokio = { version = "=1.54.1", features = ["rt-multi-thread", "macros", "time"] }
tracing = "=0.1.44"
tracing-subscriber = { version = "=0.3.23", features = ["env-filter"] }
