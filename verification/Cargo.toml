[package]
name = "serial_server"
version = "0.1.0"
edition = "2021"
publish = false

[dependencies]
cobs = "*"
chrono = "*"
serialport = { version = "*", default-features = false }
clap = { version = "*", features = ["derive"] }
