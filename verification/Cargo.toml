[package]
name = "link"
version = "0.1.0"
edition = "2021"
publish = false

[dependencies]
heapless = "0.8"
audio-codec-algorithms = "*"
hex = "0.4"
clap = { version = "4", features = ["derive"] }
serialport = { version = "4", default-features = false }
