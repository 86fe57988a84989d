[package]
name = "tessera"
version = "0.1.0"
edition = "2021"
publish = false

[dependencies]
anyhow = "1"
fast_image_resize = "5"
foldhash = "0.1"
image = { version = "0.25", default-features = false, features = ["png", "jpeg", "webp"] }
kiddo = "5"
pico-args = "0.5"
quantette = "0.3"
walkdir = "2"
