[package]
name = "nostr_ingest"
version = "0.1.0"
edition = "2021"
publish = false

[dependencies]
anyhow = "=1.0.104"
axum = "=0.6.20"
base64 = "=0.21.7"
dotenvy = "=0.15.7"
env_logger = "=0.10.2"
futures = "=0.3.34"
log = "=0.4.34"
nostr-sdk = "=0.20.1"
serde = { version = "=1.0.229", features = ["derive"] }
sqlx = { version = "=0.6.3", default-features = false, features = ["runtime-tokio-rustls", "postgres", "migrate"] }
tokio = { version = "=1.54.1", features = ["full"] }
tokio-stream = { version = "=0.1.19", features = ["sync"] }
