[package]
name = "bitchain"
version = "0.1.0"
edition = "2021"
publish = false

[dependencies]
env_logger = "*"
