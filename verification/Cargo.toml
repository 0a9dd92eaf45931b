[package]
name = "ipc"
version = "0.1.0"
edition = "2021"
publish = false

[dependencies]
ipc-channel = "*"
libc = "*"
log = "*"
serde = { version = "*", features = ["derive"] }
