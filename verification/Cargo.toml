[package]
name = "rpi_messages"
version = "0.1.0"
edition = "2021"
publish = false

[dependencies]
rgb565 = "*"
