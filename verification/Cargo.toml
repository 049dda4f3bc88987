[package]
name = "panesmith"
version = "0.1.0"
edition = "2021"
publish = false

[dependencies]
crossterm = { version = "0.28", features = ["serde"] }
libc = "0.2"
log = "0.4"
portable-pty = "0.9"
serde = { version = "1", features = ["derive"] }
