[package]
name = "bmi270"
version = "0.1.0"
edition = "2021"
publish = false

[dependencies]
device-driver = { version = "*", default-features = false }
embedded-hal-async = "1"
