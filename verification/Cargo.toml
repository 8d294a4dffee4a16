[package]
name = "padmap"
version = "0.1.0"
edition = "2021"
publish = false

[dependencies]
anyhow = "*"
clap = { version = "*", features = ["derive"] }
colored = "*"
env_logger = "*"
interception = "*"
log = "*"
ron = "*"
serde = { version = "*", features = ["derive"] }
thread-priority = "*"
vigem = "*"
