[package]
name = "aethel_gui"
version = "0.3.0"
edition = "2021"
publish = false

[dependencies]
winit = "0.30"
