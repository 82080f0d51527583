[package]
name = "achiet"
version = "0.1.0"
edition = "2021"
publish = false

[dependencies]
argon2 = { version = "0.5", features = ["std"] }
axum = "0.7"
chrono = { version = "0.4", features = ["serde"] }
crossbeam = "0.8"
env_logger = "0.11"
jsonwebtoken = "9"
log = "0.4"
reqwest = "0.12"
scraper = "0.19"
serde = { version = "1", features = ["derive"] }
sqlx = { version = "0.7", default-features = false, features = ["sqlite", "runtime-tokio", "chrono"] }
tokio = { version = "1", features = ["full"] }
tower-http = { version = "0.5", features = ["cors", "fs"] }
trait-variant = "0.1"
ulid = "1"
