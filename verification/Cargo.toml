[package]
name = "led_matrix"
version = "0.1.0"
edition = "2021"
publish = false

[dependencies]
rppal = { version = "=0.22.1", features = ["embedded-hal"] }
embedded-graphics = "=0.8.2"
embedded-hal = "=1.0.0"
