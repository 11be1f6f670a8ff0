[package]
name = "meowos"
version = "0.3.0"
edition = "2021"
publish = false

[dependencies]
uefi = { version = "=0.36.1", features = ["alloc", "logger"] }
log = "=0.4.35"
