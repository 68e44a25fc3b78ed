[package]
name = "vulkys"
version = "0.1.0"
edition = "2021"
publish = false

[dependencies]
vulkano = "0.34"
vulkano-shaders = "0.34"
winit = { version = "0.28", default-features = false, features = ["x11"] }
nalgebra = "0.32"
nalgebra-glm = "0.18"
rapier3d = "0.17"
ecolor = "0.24"
eframe = { version = "0.24", default-features = false, features = ["glow", "x11", "default_fonts"] }
egui = "0.24"
image = { version = "0.24", default-features = false, features = ["png"] }
obj-rs = "0.7"
libm = "0.2"
tracing = "0.1"
tracing-subscriber = "0.3"
anyhow = "1"
serde = { version = "1", features = ["derive"] }
serde_json = "1"
strum = "0.25"
strum_macros = "0.25"
