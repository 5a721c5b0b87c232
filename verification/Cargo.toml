[package]
name = "chat_core"
version = "0.1.0"
edition = "2021"
publish = false

[dependencies]
axum = { version = "*", features = ["ws"] }
tokio = { version = "*", features = ["full"] }
serde = { version = "*", features = ["derive"] }
serde_json = "*"
futures-util = "*"
tower-http = { version = "*", features = ["fs", "trace"] }
tracing = "*"
hyper = "*"
thiserror = "*"
chrono = { version = "*", features = ["serde"] }
sqlx = { version = "*", default-features = false, features = ["runtime-tokio", "sqlite", "chrono"] }
utoipa = "*"
ts-rs = "*"
