[package]
name = "branch_guard"
version = "0.1.0"
edition = "2021"
publish = false

[dependencies]
askama = { version = "0.12", features = ["with-axum"] }
askama_axum = "0.4"
axum = "0.7"
bigdecimal = { version = "0.4", features = ["serde"] }
chrono = { version = "0.4", features = ["serde"] }
log = "0.4"
serde = { version = "1", features = ["derive"] }
sha256 = { version = "1", default-features = false }
sqlx = { version = "0.8", default-features = false, features = ["postgres", "runtime-tokio", "derive", "chrono", "bigdecimal"] }
tokio = { version = "1", features = ["full"] }
tokio-cron-scheduler = "*"
tower = "0.4"
tower-http = { version = "0.5", features = ["trace"] }
tower-sessions = "0.12"
tracing = "0.1"
tracing-subscriber = "0.3"
uuid = { version = "1", features = ["v4"] }
