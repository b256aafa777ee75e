[package]
name = "tinyrenderer"
version = "0.1.0"
edition = "2021"
publish = false

[dependencies]
regex = "1"
pixels = "*"
winit = "*"
winit_input_helper = "*"
