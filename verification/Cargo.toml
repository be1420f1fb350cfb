[package]
name = "pgmigrate"
version = "0.1.0"
edition = "2021"
publish = false

[dependencies]
anyhow = "*"
serde = { version = "*", features = ["derive"] }
tokio = { version = "*", features = ["rt", "sync"] }
tokio-postgres = "*"
toml = "*"
tracing = "*"
