[package]
name = "riven"
version = "0.1.0"
edition = "2021"
publish = false

[dependencies]
sha2 = "0.10"
serde = { version = "1", features = ["derive"] }
serde_json = "1"
toml = "0.8"
ar = "0.9"
clap = { version = "4", features = ["derive"] }
