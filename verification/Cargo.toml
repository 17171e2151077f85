[package]
name = "openclaw_helper"
version = "0.1.0"
edition = "2021"
publish = false

[dependencies]
dirs = "=5.0.1"
log = "0.4"
serde = { version = "1", features = ["derive"] }
serde_json = "1"
