[package]
name = "bento"
version = "0.1.0"
edition = "2021"
publish = false

[dependencies]
bytemuck = { version = "1", features = ["derive"] }
glyphon = "*"
pollster = "*"
wgpu = "*"
winit = "0.30"
