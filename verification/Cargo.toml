[package]
name = "rv_emu"
version = "0.1.0"
edition = "2021"
publish = false

[dependencies]
bincode = { version = "2", features = ["serde"] }
clap = { version = "3", features = ["derive"] }
env_logger = "0.10"
gdbstub = "0.7"
gdbstub_arch = "0.3"
log = "0.4"
serde = { version = "1", features = ["derive"] }
serde-big-array = "0.5"
