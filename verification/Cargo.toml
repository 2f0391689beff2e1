[package]
name = "aspect"
version = "0.1.0"
edition = "2021"
publish = false

[dependencies]
chrono = "=0.4.45"
conrod_core = "=0.63.0"
conrod_derive = "=0.63.0"
conrod_glium = "0.63"
conrod_winit = "0.63"
env_logger = "=0.6.2"
gif = "=0.10.3"
gif-dispose = "=2.4.2"
glium = "0.23"
image = "=0.21.3"
log = "=0.4.34"
migrant_lib = { version = "*", features = ["d-sqlite"] }
rand = "=0.8.8"
rusqlite = { version = "*", features = ["bundled"] }
ttf-noto-sans = "*"
