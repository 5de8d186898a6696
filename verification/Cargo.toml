[package]
name = "bulgur_cloud"
version = "0.1.0"
edition = "2021"
publish = false

[dependencies]
nanoid = "0.4"
scrypt = "0.11"
sanitize-filename = "*"
chrono = { version = "0.4", default-features = false, features = ["clock"] }
urlencoding = "2"
libc = "0.2"
