[package]
name = "dp_rest"
version = "0.1.0"
edition = "2021"
publish = false

[dependencies]
uuid = { version = "1", features = ["v4", "serde"] }
chrono = { version = "0.4", features = ["serde"] }
chrono-tz = "0.10"
serde = { version = "1", features = ["derive"] }
serde_json = "1"
axum = { version = "0.8", features = ["multipart"] }
tokio = { version = "1", features = ["rt", "macros"] }
tracing = "0.1"
utoipa = { version = "5", features = ["chrono", "uuid"] }
async-trait = "0.1"
thiserror = "2"
secrecy = "0.10"
bytes = "1"
futures = "0.3"
