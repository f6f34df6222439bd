[package]
name = "prism"
version = "0.1.0"
edition = "2021"
publish = false

[dependencies]
anyhow = "1"
ash = "=0.38.0"
ash-window = "=0.13.0"
egui = { version = "=0.33.3", default-features = false }
egui-ash-renderer = "=0.10.0"
env_logger = { version = "0.11", default-features = false }
gltf = "=1.4.1"
image = { version = "=0.25.10", default-features = false, features = ["png", "hdr"] }
log = "0.4"
raw-window-handle = "=0.6.2"
serde = { version = "1", features = ["derive"] }
serde_json = "1"
winit = "=0.30.13"
