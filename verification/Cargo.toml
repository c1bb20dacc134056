[package]
name = "bodypix"
version = "0.1.0"
edition = "2021"
publish = false

[dependencies]
dirs = "=3.0.2"
image = { version = "=0.23.14", default-features = false }
nannou = "=0.15.0"
tensorflow = "=0.16.1"
