[package]
name = "rust_music"
version = "0.1.0"
edition = "2021"
publish = false

[dependencies]
midly = "*"
