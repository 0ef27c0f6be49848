[package]
name = "state_store"
version = "0.1.0"
edition = "2021"
publish = false

[dependencies]
anyhow = "=1.0.104"
dashmap = "=5.5.3"
once_cell = "=1.21.4"
rayon = "=1.12.0"
serde = { version = "=1.0.229", features = ["derive"] }
tokio = { version = "1", default-features = false, features = ["rt", "sync", "time"] }
uuid = { version = "=1.29.0", features = ["v4"] }
