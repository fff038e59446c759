[package]
name = "rs_aio_db"
version = "0.1.0"
edition = "2021"
publish = false

[dependencies]
hex = "0.4"
bevy_reflect = "0.14"
bincode = "1"
serde = { version = "1", features = ["derive"] }
tokio = { version = "1", features = ["rt", "macros", "time"] }
tokio-rusqlite = "*"
rusqlite = "*"
log = "0.4"
env_logger = "0.11"
