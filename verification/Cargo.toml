[package]
name = "next"
version = "0.2.0"
edition = "2021"
publish = false

[dependencies]
clap = { version = "4", features = ["derive"] }
heck = "*"
self_update = "*"
thiserror = "*"

[dev-dependencies]
tempfile = "*"
