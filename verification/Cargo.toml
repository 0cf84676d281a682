[package]
name = "mansion"
version = "0.1.0"
edition = "2021"
publish = false

[dependencies]
embedded-graphics = "0.7"
tinybmp = "0.4"
lite-json = "0.2"
uefi = { version = "0.28", features = ["alloc"] }
uefi-services = { version = "0.25", default-features = false }
