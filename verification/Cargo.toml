[package]
name = "replay_driver"
version = "0.1.0"
edition = "2021"

[dependencies]
anyhow = "=1.0.104"
