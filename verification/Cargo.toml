[package]
name = "fdw"
version = "0.1.0"
edition = "2021"
publish = false

[dependencies]
byteorder = "1"
json = "0.12"
log = "0.4"
env_logger = "0.11"
