[package]
name = "stall"
version = "0.1.0"
edition = "2021"
publish = false

[dependencies]
anyhow = "1"
bimap = { version = "0.6", features = ["serde"] }
clap = { version = "3", features = ["derive"] }
colored = "2"
ron = "0.7"
serde = { version = "1", features = ["derive"] }
tracing = "0.1"
