[package]
name = "terrain_erosion"
version = "0.1.0"
edition = "2021"
publish = false

[dependencies]
bevy = { version = "0.14", default-features = false }
noise = { version = "0.9", default-features = false }
rand = "0.8"
