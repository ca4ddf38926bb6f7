[package]
name = "plutus"
version = "0.1.0"
edition = "2021"
publish = false

[dependencies]
rand = "0.8"
sha256 = "1"
axum = "0.7"
axum-extra = "0.9"
tokio = { version = "1", features = ["rt-multi-thread", "macros", "net", "time", "sync"] }
tower-http = { version = "0.5", features = ["cors"] }
serde = { version = "1", features = ["derive"] }
serde_json = "1"
urlencoding = "2"
dotenv = "0.15"
thiserror = "1"
strum_macros = "0.26"
