[package]
name = "raytrace_core"
version = "0.1.0"
edition = "2021"
publish = false

[dependencies]
ash = "=0.37.3"
ash-window = "=0.12.0"
raw-window-handle = "=0.5.2"
winit = { version = "=0.29.15", default-features = false, features = ["rwh_05", "x11"] }
gpu-allocator = { version = "=0.25.0", default-features = false, features = ["vulkan"] }
glam = { version = "=0.24.2", features = ["bytemuck"] }
rand = "=0.8.8"
rayon = "=1.12.0"
tobj = "=4.0.5"
bytemuck = { version = "=1.25.2", features = ["derive"] }
anyhow = "=1.0.104"
image = { version = "=0.25.10", default-features = false, features = ["png"] }
easy-gltf = "=1.1.5"
