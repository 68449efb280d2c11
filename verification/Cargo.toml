[package]
name = "ani_dock"
version = "0.1.0"
edition = "2021"
publish = false

[dependencies]
anyhow = "=1.0.104"
axum = "=0.8.9"
bytes = "=1.12.1"
chrono = { version = "=0.4.45", features = ["serde"] }
futures = "=0.3.34"
indexmap = { version = "=2.14.2", features = ["serde"] }
rustc-hash = "=2.1.3"
serde = { version = "=1.0.229", features = ["derive"] }
serde_json = "=1.0.154"
sqlx = { version = "=0.9.0", default-features = false, features = ["runtime-tokio", "sqlite", "chrono", "uuid"] }
thiserror = "=2.0.21"
tokio = { version = "=1.54.1", features = ["full"] }
tokio-stream = { version = "=0.1.19", features = ["sync"] }
tokio-util = "=0.7.20"
toml = "=1.1.8"
tower-http = { version = "=0.7.1", features = ["fs"] }
tracing = "=0.1.44"
tracing-subscriber = { version = "=0.3.23", features = ["env-filter"] }
ts-rs = "=12.0.1"
url = "=2.5.8"
uuid = { version = "=1.29.0", features = ["v7", "serde"] }
