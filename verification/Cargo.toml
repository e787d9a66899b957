[package]
name = "infrared"
version = "0.5.0"
edition = "2021"
publish = false

[dependencies]
embedded-hal = { version = "0.2.7", features = ["unproven"] }
