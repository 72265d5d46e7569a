[package]
name = "roadkill"
version = "0.1.0"
edition = "2021"
publish = false

[dependencies]
byteorder = "=1.5.0"
bevy = { version = "=0.14.2", default-features = false }
image = { version = "=0.25.10", default-features = false, features = ["png"] }
