[package]
name = "flock_lab"
version = "0.1.0"
edition = "2021"
publish = false

[dependencies]
anyhow = "1"
bytemuck = { version = "1", features = ["derive"] }
egui = { version = "0.27", default-features = false }
env_logger = { version = "0.11", default-features = false }
glam = { version = "0.25", features = ["bytemuck"] }
log = "0.4"
pollster = "0.3"
rand = "0.8"
winit = { version = "0.29", default-features = false, features = ["x11", "rwh_06"] }
