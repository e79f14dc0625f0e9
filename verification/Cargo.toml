[package]
name = "jsonc"
version = "0.1.0"
edition = "2021"
publish = false

[dependencies]
serde_json = "*"
clap = { version = "*", features = ["derive"] }
edit = "*"
notify = "*"
tempfile = "*"
