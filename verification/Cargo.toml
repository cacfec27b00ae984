[package]
name = "nbody2d"
version = "0.1.0"
edition = "2021"
publish = false

[dependencies]
env_logger = "0.10"
pixels = "0.13"
winit = "0.28"
