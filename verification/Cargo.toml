[package]
name = "pump"
version = "0.1.0"
edition = "2021"
publish = false

[dependencies]
clap = { version = "4", features = ["env"] }
serialport = { version = "4", default-features = false }
