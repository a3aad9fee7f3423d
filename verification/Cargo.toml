[package]
name = "video_capture_share"
version = "0.1.0"
edition = "2021"
publish = false

[dependencies]
anyhow = "1"
bytemuck = { version = "1", features = ["derive"] }
clap = { version = "4", features = ["derive"] }
dialoguer = { version = "0.11", default-features = false }
directories = "6"
env_logger = "0.11"
image = { version = "=0.25.10", default-features = false, features = ["jpeg", "png"] }
log = "0.4"
nokhwa = { version = "=0.10.11", default-features = false, features = ["decoding"] }
parking_lot = "0.12"
pollster = "0.4"
ringbuf = "=0.4.8"
serde = { version = "1", features = ["derive"] }
sysinfo = { version = "0.29", default-features = false }
tiny_http = "0.12"
toml = "0.8"
egui = { version = "0.30", default-features = false, features = ["default_fonts"] }
egui-wgpu = { version = "0.30", default-features = false }
egui-winit = { version = "0.30", default-features = false }
wgpu = { version = "23", default-features = false, features = ["wgsl"] }
winit = { version = "0.30", default-features = false, features = ["x11", "rwh_06"] }
