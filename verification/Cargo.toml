[package]
name = "scene_kernel"
version = "0.1.0"
edition = "2021"
publish = false

[dependencies]
nanoid = "*"
stardust-xr = "*"
serde = { version = "*", features = ["derive"] }
glam = "*"
input-event-codes = "*"
