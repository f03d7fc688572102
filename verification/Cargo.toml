[package]
name = "chip8emu"
version = "0.1.0"
edition = "2021"
publish = false

[dependencies]
rand = "0.8"
clap = { version = "3.2", features = ["derive"] }
sdl2 = "0.35"
