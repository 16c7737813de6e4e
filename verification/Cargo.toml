[package]
name = "voxel_trace"
version = "0.1.0"
edition = "2021"
publish = false

[dependencies]
pollster = "0.3"
wgpu = "22"
winit = "0.30"
