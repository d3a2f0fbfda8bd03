[package]
name = "process_scheduler"
version = "0.1.0"
edition = "2021"
publish = false

[dependencies]
rand = "0.8"
serde = { version = "1", features = ["derive"] }
egui = "*"
egui_extras = "*"
eframe = { version = "*", default-features = false, features = ["default_fonts", "glow", "persistence", "wayland", "x11"] }
