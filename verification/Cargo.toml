[package]
name = "antegen"
version = "0.1.0"
edition = "2021"
publish = false

[dependencies]
bincode = "1"
futures = "0.3"
log = "0.4"
serde = { version = "1", features = ["derive"] }
tokio = { version = "1", features = ["macros", "rt", "rt-multi-thread", "sync", "time"] }
