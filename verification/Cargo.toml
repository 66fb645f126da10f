[package]
name = "shade"
version = "0.1.0"
edition = "2021"
publish = false

[dependencies]
cvmath = "*"
gl = "*"
dataview = "*"
serde = { version = "1", features = ["derive"] }
