[package]
name = "funixtools"
version = "0.1.0"
edition = "2021"
publish = false

[dependencies]
clap = { version = "4.5", features = ["derive"] }
color-eyre = "0.6"
dirs = "7"
env_logger = "0.11"
itertools = "=0.15.0"
log = "0.4"
nix = { version = "0.31", features = ["hostname"] }
toml = "=1.1.8"
