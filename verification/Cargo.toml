[package]
name = "sahai"
version = "0.1.0"
edition = "2021"
publish = false

[dependencies]
subtle = "=2.6.1"
chrono = { version = "=0.4.45", default-features = false, features = ["std", "clock"] }
serde = { version = "=1.0.229", features = ["derive"] }
serde_json = "=1.0.154"
serde_yaml = "=0.9.34"
toml = "=0.8.23"
thiserror = "=2.0.21"
tokio = { version = "=1.54.1", features = ["full"] }
axum = { version = "=0.8.9", features = ["multipart"] }
tower = { version = "=0.5.3", features = ["util"] }
tower-http = { version = "=0.6.11", features = ["fs", "cors"] }
bollard = "=0.18.1"
futures-util = "=0.3.34"
async-trait = "=0.1.92"
sqlx = { version = "=0.8.6", default-features = false, features = ["sqlite", "runtime-tokio", "migrate", "macros"] }
reqwest = { version = "=0.12.28", default-features = false, features = ["json", "multipart", "rustls-tls"] }
clap = { version = "=4.6.7", features = ["derive"] }
dirs = "=6.0.0"
flate2 = "=1.1.10"
tar = "=0.4.46"
ignore = "=0.4.34"
uuid = { version = "=1.29.0", features = ["v4"] }
tracing = "=0.1.44"
tracing-subscriber = { version = "=0.3.23", features = ["env-filter"] }
