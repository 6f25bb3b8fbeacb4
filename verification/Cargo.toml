[package]
name = "ams"
version = "0.1.0"
edition = "2021"
publish = false

[dependencies]
tokio = { version = "*", features = ["full"] }
tokio-util = { version = "*", features = ["full"] }
tokio-stream = "*"
futures = "*"
clap = { version = "*", features = ["derive"] }
crossterm = "*"
ratatui = "*"
