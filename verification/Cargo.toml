[package]
name = "terre_core"
version = "0.1.0"
edition = "2021"
publish = false

[dependencies]
env_logger = "*"
log = "*"
pollster = "*"
wgpu = "*"
winit = "*"
