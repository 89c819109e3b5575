[package]
name = "sdf_playground"
version = "0.1.0"
edition = "2021"
publish = false

[dependencies]
env_logger = "0.10"
log = "0.4"
pixels = "=0.13.0"
spirv-builder = { version = "=0.9.0", default-features = false, features = ["use-installed-tools"] }
wgpu = { version = "=0.16.3", features = ["spirv"] }
winit = "=0.28.7"
winit_input_helper = "=0.14.1"
