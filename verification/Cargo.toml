[package]
name = "rusty_fractal"
version = "0.1.0"
edition = "2021"
publish = false

[dependencies]
dirs = "4"
eframe = "0.19"
egui = "0.19"
egui_glow = "0.19"
glam = "0.22"
glow = "0.11"
image = { version = "0.24", default-features = false, features = ["png"] }
