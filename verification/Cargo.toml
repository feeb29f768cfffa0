[package]
name = "mail"
version = "0.1.0"
edition = "2021"
publish = false

[dependencies]
chrono = "=0.2.25"
log = "0.4"
env_logger = { version = "0.11", default-features = false }
