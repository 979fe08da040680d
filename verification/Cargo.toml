[package]
name = "connect_four"
version = "0.1.0"
edition = "2021"
publish = false

[dependencies]
chrono = "0.4"
env_logger = "0.11"
ratatui = "0.27"
yamcts = "*"
