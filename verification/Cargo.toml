[package]
name = "graphics"
version = "0.1.0"
edition = "2021"
publish = false

[dependencies]
bincode = "=2.0.1"
egui = "=0.32.3"
egui-wgpu = "=0.32.3"
egui-winit = "=0.32.3"
image = { version = "=0.25.10", default-features = false, features = ["png", "ico"] }
lin_alg = { version = "=1.4.3", features = ["computer_graphics"] }
pollster = "=0.4.0"
wgpu = "=25.0.2"
winit = "=0.30.13"
