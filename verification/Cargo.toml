[package]
name = "loudnorm"
version = "0.1.0"
edition = "2021"
publish = false

[dependencies]
anyhow = "*"
clap = { version = "*", features = ["derive"] }
crossbeam-channel = "*"
env_logger = "*"
id3 = "*"
libc = "*"
log = "*"
mp4ameta = "*"
once_cell = "*"
