[package]
name = "flurry"
version = "0.1.0"
edition = "2021"
publish = false

[dependencies]
dirs = "*"
eframe = { version = "*", default-features = false, features = ["default_fonts", "glow", "x11"] }
egui = "*"
png = "*"
serde = { version = "1", features = ["derive"] }
serde_json = "1"
zune-jpeg = "*"
