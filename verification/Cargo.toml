[package]
name = "agent_pool"
version = "0.1.0"
edition = "2021"
publish = false

[dependencies]
rand = "*"
log = "*"
env_logger = "*"
