[package]
name = "bun_pty"
version = "0.1.0"
edition = "2021"
publish = false

[dependencies]
portable-pty = "*"
shell-words = "*"
libc = "*"
lazy_static = "*"
serde = { version = "*", features = ["derive"] }
