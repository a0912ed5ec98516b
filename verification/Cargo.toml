[package]
name = "key_value_store"
version = "0.1.0"
edition = "2021"
publish = false

[dependencies]
anyhow = "*"
chrono = "*"
crossbeam = "*"
crossbeam-channel = "*"
env_logger = "*"
log = "*"
rand = "*"
structopt = "*"
tempfile = "*"
