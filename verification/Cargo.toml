[package]
name = "gswt"
version = "0.1.0"
edition = "2021"
publish = false

[dependencies]
anyhow = "=1.0.104"
bus = "2"
bytemuck = { version = "=1.25.2", features = ["derive"] }
egui = "=0.33.3"
egui-wgpu = "0.33"
egui-winit = "0.33"
log = "=0.4.35"
num-format = "=0.4.4"
regex = "=1.13.1"
rfd = "*"
serde = { version = "=1.0.229", features = ["derive"] }
serde_json = "=1.0.154"
wgpu = "=27.0.1"
winit = "0.30"
zip = { version = "=9.2.2", default-features = false, features = ["deflate"] }
