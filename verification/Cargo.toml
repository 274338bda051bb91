[package]
name = "nebula_term"
version = "0.1.0"
edition = "2021"
publish = false

[dependencies]
anyhow = "*"
bytemuck = "*"
cosmic-text = "*"
pollster = "*"
portable-pty = "*"
wgpu = "*"
winit = "*"
