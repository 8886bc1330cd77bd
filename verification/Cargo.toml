[package]
name = "relay_migrations"
version = "0.1.0"
edition = "2021"
publish = false

[dependencies]
serde = { version = "1", features = ["derive"] }
serde_json = "1"
hex = "0.4"
sqlx = { version = "0.8", default-features = false, features = ["runtime-async-std", "postgres"] }
async-std = "1"
indicatif = "0.17"
tracing = "0.1"
