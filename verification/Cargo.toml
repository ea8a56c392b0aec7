[package]
name = "feather"
version = "0.1.0"
edition = "2021"
publish = false

[dependencies]
serde_json = "1"
log = "0.4"
env_logger = "0.11"
egui = "0.27"
winit = "0.29"
