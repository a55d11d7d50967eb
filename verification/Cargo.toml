[package]
name = "scaffold"
version = "0.1.0"
edition = "2021"
publish = false

[dependencies]
tera = { version = "=1.20.1", default-features = false }
serde = { version = "=1.0.229", features = ["derive"] }
egui = "=0.23.0"
eframe = { version = "=0.23.0", default-features = false, features = ["default_fonts", "glow", "persistence", "x11"] }
