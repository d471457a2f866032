[package]
name = "hello"
version = "0.1.0"
edition = "2021"
publish = false

[dependencies]
pico-args = "0.5"
regex = "1"
rustyline = { version = "*", default-features = false }
unicode-segmentation = "1"
