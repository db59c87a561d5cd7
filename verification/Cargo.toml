[package]
name = "fluxvt"
version = "0.1.0"
edition = "2021"
publish = false

[dependencies]
bytemuck = { version = "1", features = ["derive"] }
glyphon = "*"
libc = "0.2"
pollster = "*"
vte = "0.13"
wgpu = "*"
winit = "0.30"
