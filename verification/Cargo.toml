[package]
name = "metaballs"
version = "0.1.0"
edition = "2021"
publish = false

[dependencies]
rand = "0.8"
winit = "0.25"
pixels = "0.8"
winit_input_helper = "0.10"
