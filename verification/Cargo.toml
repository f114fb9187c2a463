[package]
name = "xunlei_installer"
version = "0.1.0"
edition = "2021"
publish = false

[dependencies]
anyhow = "1"
chrono = "0.4"
clap = { version = "4", features = ["derive"] }
env_logger = "0.10"
libc = "0.2"
log = "0.4"
rand = "0.8"
