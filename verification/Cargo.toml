[package]
name = "bongas_ai"
version = "0.1.0"
edition = "2021"
publish = false

[dependencies]
anyhow = "1"
arc-swap = "1"
async-trait = "0.1"
chrono = "0.4"
lru = "0.12"
serde = { version = "1", features = ["derive"] }
serde_json = "1"
sqlx = { version = "0.8", default-features = false, features = ["postgres", "runtime-tokio", "json", "chrono", "derive", "macros"] }
tokio = { version = "1", features = ["sync", "rt", "macros", "time"] }
tracing = "0.1"
uuid = { version = "1", features = ["v4"] }
