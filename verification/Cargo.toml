[package]
name = "clock_sync"
version = "0.1.0"
edition = "2021"
publish = false

[dependencies]
anyhow = "1"
clap = { version = "4", features = ["derive"] }
critical-section = { version = "1", features = ["std"] }
crossbeam-channel = "0.5"
embassy-sync = "0.7"
env_logger = "0.11"
libc = "0.2"
log = "0.4"
serialport = { version = "4", default-features = false }
