[package]
name = "chip8_kit"
version = "0.1.0"
edition = "2021"
publish = false

[dependencies]
clap = { version = "4", features = ["derive"] }
minifb = "0.25"
thiserror = "1"
