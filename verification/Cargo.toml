[package]
name = "dataviewer"
version = "0.1.0"
edition = "2021"
publish = false

[dependencies]
serde = { version = "*", features = ["derive"] }
toml = "*"
eyre = "*"
daemonize = "*"
