[package]
name = "pos_backend"
version = "0.1.0"
edition = "2021"
publish = false

[dependencies]
rust_decimal = "=1.43.0"
chrono = { version = "=0.4.45", features = ["serde"] }
serde = { version = "=1.0.229", features = ["derive"] }
serde_json = "=1.0.154"
log = "=0.4.34"
tokio = { version = "=1.54.1", features = ["sync", "macros", "rt-multi-thread"] }
actix-web = { version = "=4.18.1", default-features = false, features = ["macros"] }
sqlx = { version = "=0.8.6", default-features = false, features = ["runtime-tokio", "postgres", "chrono", "rust_decimal", "derive"] }
actix-cors = "0.7"
dotenv = "0.15"
env_logger = "0.11"
jsonwebtoken = "9"
