[package]
name = "easy-shader-runner"
version = "0.1.0"
edition = "2021"
publish = false

[dependencies]
bytemuck = "1"
egui = "0.31"
egui-wgpu = { version = "0.31", default-features = false }
egui-winit = { version = "0.31", default-features = false, features = ["x11"] }
glam = "0.30"
wgpu = { version = "24", features = ["spirv"] }
