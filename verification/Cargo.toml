[package]
name = "sudokube"
version = "0.1.0"
edition = "2021"
publish = false

[dependencies]
clap = "=4.6.7"
crossterm = { version = "=0.29.0", features = ["serde"] }
dirs = "=7.0.0"
serde = { version = "=1.0.229", features = ["derive"] }
serde_json = "=1.0.151"
serde_yaml = "=0.9.34"
