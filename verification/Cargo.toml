[package]
name = "task_store"
version = "0.1.0"
edition = "2021"
publish = false

[dependencies]
anyhow = "1"
sqlx = { version = "*", default-features = false, features = ["runtime-tokio", "postgres"] }
tokio = { version = "1", features = ["rt", "sync"] }
