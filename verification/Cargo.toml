[package]
name = "service_skeleton"
version = "0.1.0"
edition = "2021"
publish = false

[dependencies]
base64 = "*"
strong-box = "*"
secrecy = "*"
heck = "*"
clap = { version = "*", features = ["derive"] }
