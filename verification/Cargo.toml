[package]
name = "frame_motion_studio"
version = "0.1.0"
edition = "2021"
publish = false

[dependencies]
anyhow = "1.0.104"
egui = "0.31.1"
eframe = { version = "0.31.1", default-features = false, features = ["default_fonts", "glow", "x11"] }
image = { version = "0.25.10", default-features = false, features = ["png", "jpeg"] }
open = "5.4.5"
