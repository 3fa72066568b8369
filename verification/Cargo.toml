[package]
name = "scene_harness"
version = "0.1.0"
edition = "2021"
publish = false

[dependencies]
futures = "0.3"
wgpu = "*"
winit = "0.29"
