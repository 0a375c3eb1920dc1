[package]
name = "lush"
version = "0.1.0"
edition = "2021"
publish = false

[dependencies]
serde_json = "=1.0.154"
clap = { version = "=4.6.7", features = ["derive"] }
log = "=0.4.35"
env_logger = "=0.11.11"
libc = "=0.2.191"
procfs = "=0.18.0"
mlua = { version = "=0.10.5", features = ["lua54", "vendored"] }
zbus = "5"
