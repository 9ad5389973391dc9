[package]
name = "file_relay"
version = "0.1.0"
edition = "2021"
publish = false

[dependencies]
ureq = { version = "2", default-features = false, features = ["json"] }
