[package]
name = "scene_engine"
version = "0.1.0"
edition = "2021"
publish = false

[dependencies]
ambisonic = "=0.4.1"
cgmath = "=0.17.0"
hound = "=3.5.1"
image = "=0.23.14"
lazy_static = "=1.5.1"
luminance = "=0.39.0"
luminance-derive = "=0.5.3"
luminance-glfw = "=0.12.2"
ron = "=0.6.6"
rusttype = "=0.9.3"
serde = { version = "=1.0.229", features = ["derive"] }
wavefront_obj = "=11.0.0"
zip = "=0.5.13"
