[package]
name = "micron"
version = "0.1.0"
edition = "2021"
publish = false

[dependencies]
anyhow = "1"
eframe = { version = "0.22", default-features = false, features = ["default_fonts", "glow", "persistence"] }
egui = "0.22"
env_logger = "0.10"
log = "0.4"
positioned-io = "0.3"
rfd = "0.11"
serde = { version = "1", features = ["derive"] }
