[package]
name = "classer"
version = "0.1.0"
edition = "2021"
publish = false

[dependencies]
crevice = { version = "=0.19.0", features = ["glam"] }
ggez = { version = "=0.10.0", default-features = false }
nalgebra = "=0.35.0"
