[package]
name = "wayland_session"
version = "0.1.0"
edition = "2021"
publish = false

[dependencies]
bytemuck = { version = "=1.25.2", features = ["derive"] }
tempfile = "=3.27.0"
vulkano = "=0.34.2"
vulkano-shaders = "=0.34.0"
wayland-client = "=0.31.15"
wayland-protocols = { version = "=0.31.2", features = ["client"] }
