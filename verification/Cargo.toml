[package]
name = "car_game"
version = "0.1.0"
edition = "2021"
publish = false

[dependencies]
bytemuck = { version = "=1.25.2", features = ["derive"] }
chrono = "=0.4.45"
pollster = "=0.4.0"
serde = { version = "=1.0.229", features = ["derive"] }
wgpu = "=28.0.0"
winit = "=0.30.13"
