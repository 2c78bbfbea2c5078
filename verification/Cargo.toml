[package]
name = "glowstone"
version = "0.1.0"
edition = "2021"
publish = false

[dependencies]
directories = "=6.0.0"
egui = { version = "=0.34.3", default-features = false, features = ["default_fonts", "serde"] }
egui_dock = { version = "=0.19.1", features = ["serde"] }
egui-phosphor = "=0.12.0"
glam = { version = "=0.30.10", features = ["serde"] }
image = { version = "=0.25.10", default-features = false, features = ["jpeg", "png"] }
rmp-serde = "=1.3.1"
serde = { version = "=1.0.229", features = ["derive"] }
serde_json = "=1.0.154"
