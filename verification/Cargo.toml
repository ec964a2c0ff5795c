[package]
name = "auth_core"
version = "0.1.0"
edition = "2021"
publish = false

[dependencies]
rust-argon2 = "2"
jsonwebtoken = "9"
chrono = "0.4"
serde = { version = "1", features = ["derive"] }
mongodb = "2"
axum = "0.6"
tokio = { version = "1", features = ["rt-multi-thread", "macros"] }
tower-http = { version = "0.4", features = ["cors"] }
dotenv = "0.15"

[dev-dependencies]
serde_json = "1"
base64 = "0.21"
