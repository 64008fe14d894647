[package]
name = "diode"
version = "0.1.0"
edition = "2021"
publish = false

[dependencies]
bytemuck = { version = "=1.25.2", features = ["derive"] }
fontdue = "=0.8.0"
lyon = "=1.0.19"
pollster = "=0.3.0"
serde = { version = "=1.0.229", features = ["derive"] }
wgpu = { version = "0.19", default-features = false, features = ["wgsl"] }
