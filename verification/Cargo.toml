[package]
name = "termlink_core"
version = "0.1.0"
edition = "2021"
publish = false

[dependencies]
async-trait = "0.1"
chrono = "0.4"
crossbeam-channel = "0.5"
directories = "5"
dirs = "5"
keyring = "2"
lazy_static = "1"
log = "0.4"
once_cell = "1"
parking_lot = "0.12"
portable-pty = "0.8"
russh = "0.40"
russh-keys = "0.40"
russh-sftp = "2"
serde = { version = "1", features = ["derive"] }
serde_json = "1"
tokio = { version = "1", features = ["full"] }
