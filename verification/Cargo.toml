[package]
name = "molesim"
version = "0.1.0"
edition = "2021"
publish = false

[dependencies]
eframe = { version = "0.22", default-features = false, features = ["default_fonts", "glow"] }
glam = "0.24"
rand = "0.8"
rayon = "1"
tracing-subscriber = "0.3"
