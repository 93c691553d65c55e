[package]
name = "tree_growth"
version = "0.1.0"
edition = "2021"
publish = false

[dependencies]
rand = "0.8"
rand_chacha = "0.3"
bevy = { version = "0.9", default-features = false, features = ["bevy_asset", "bevy_winit", "render", "png", "x11"] }
bevy_easings = "0.9"
bevy_prototype_debug_lines = { version = "0.9", features = ["3d"] }
bevy_simple_tilemap = "0.10"
chrono = "0.4"
console_error_panic_hook = "0.1"
