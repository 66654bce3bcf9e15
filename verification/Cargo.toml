[package]
name = "voxel_engine"
version = "0.1.0"
edition = "2021"
publish = false

[dependencies]
bytemuck = { version = "1", features = ["derive"] }
cgmath = "0.18"
env_logger = "*"
pollster = "*"
rand = "0.9"
wgpu = "*"
winit = "0.30"
