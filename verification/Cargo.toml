[package]
name = "photopeek"
version = "0.1.0"
edition = "2021"
publish = false

[dependencies]
eframe = { version = "=0.22.0", default-features = false, features = ["glow"] }
egui = "=0.22.0"
egui_extras = { version = "=0.22.0", default-features = false, features = ["image"] }
