[package]
name = "mic2"
version = "0.1.0"
edition = "2021"
publish = false

[dependencies]
chrono = "=0.4.45"
serialport = { version = "=4.10.1", default-features = false }
