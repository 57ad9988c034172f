[package]
name = "enigma_rs"
version = "0.1.0"
edition = "2021"
publish = false

[dependencies]
rand = "0.8"
log = "0.4"
clap = { version = "4", features = ["derive"] }
env_logger = { version = "0.10", default-features = false }
chrono = { version = "0.4", default-features = false, features = ["clock"] }
