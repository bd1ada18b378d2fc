[package]
name = "thinkdsp"
version = "0.1.0"
edition = "2021"
publish = false

[dependencies]
fundsp = "*"
plotters = "*"
env_logger = "*"
log = "*"
