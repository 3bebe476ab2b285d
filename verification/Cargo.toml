[package]
name = "rust_api_ddd"
version = "0.1.0"
edition = "2021"
publish = false

[dependencies]
async-trait = "0.1"
axum = "0.7"
chrono = { version = "0.4", features = ["serde"] }
serde = { version = "1", features = ["derive"] }
serde_json = "1"
sqlx = { version = "0.8", default-features = false, features = ["postgres", "runtime-tokio", "chrono", "json"] }
thiserror = "1"
tokio = { version = "1", features = ["full"] }
tracing = "0.1"
validator = { version = "0.18", features = ["derive"] }
