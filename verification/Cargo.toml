[package]
name = "image_rider"
version = "0.1.0"
edition = "2021"
publish = false

[dependencies]
forbidden-bands = "*"
