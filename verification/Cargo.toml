[package]
name = "agentim"
version = "0.1.0"
edition = "2021"
publish = false

[dependencies]
anyhow = "=1.0.104"
axum = { version = "=0.8.9", features = ["ws"] }
base64 = "=0.22.1"
chrono = "=0.4.45"
clap = { version = "=4.6.7", features = ["derive", "env"] }
colored = "=3.1.1"
dirs = "=6.0.0"
ed25519-dalek = { version = "=2.2.0", features = ["pkcs8", "pem"] }
futures-util = "=0.3.34"
hex = "=0.4.3"
jsonwebtoken = "=9.3.1"
mime_guess = "=2.0.5"
rand = "=0.9.5"
reqwest = { version = "=0.12.28", default-features = false, features = ["json", "rustls-tls"] }
rust-embed = "=8.13.0"
sea-orm = { version = "=1.1.20", default-features = false, features = ["macros", "with-chrono", "with-json", "sqlx-sqlite", "runtime-tokio-rustls"] }
serde = { version = "=1.0.229", features = ["derive"] }
serde_json = { version = "=1.0.154", features = ["preserve_order"] }
sha2 = "=0.10.9"
tokio = { version = "=1.54.1", features = ["full"] }
tokio-tungstenite = "=0.26.2"
toml = "=0.8.23"
tower_governor = "=0.7.0"
tower-http = { version = "=0.6.11", features = ["cors"] }
tower-sessions = "=0.14.0"
tracing = "=0.1.44"
tracing-subscriber = { version = "=0.3.23", features = ["env-filter"] }
uuid = { version = "=1.29.0", features = ["v4"] }
