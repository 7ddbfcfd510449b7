[package]
name = "hyprland-crt-shader"
version = "1.1.0"
edition = "2021"
publish = false

[dependencies]
slint = { version = "=1.9.2", default-features = false, features = ["std", "compat-1-2"] }
