[package]
name = "pty-expect"
version = "0.1.0"
edition = "2021"
publish = false

[dependencies]
regex = "1"
vt100 = "0.15"
portable-pty = "0.8"
thiserror = "1"
