[package]
name = "rend3"
version = "0.1.0"
edition = "2021"
publish = false

[dependencies]
glam = "=0.30.10"
parking_lot = "=0.12.5"
encase = { version = "=0.11.2", features = ["glam"] }
wgpu = { version = "=30.0.1", default-features = false }
