[package]
name = "builder"
version = "0.1.0"
edition = "2021"
publish = false

[dependencies]
serde = "1"
serde_yaml = "0.9"
clap = { version = "4", features = ["derive"] }
