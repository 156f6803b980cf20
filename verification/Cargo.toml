[package]
name = "rollback_core"
version = "0.1.0"
edition = "2021"
publish = false

[dependencies]
ringbuffer = "*"
serde = { version = "*", features = ["derive"] }
serde_json = "*"
