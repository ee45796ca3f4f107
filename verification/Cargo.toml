[package]
name = "squash"
version = "0.1.0"
edition = "2021"
publish = false

[dependencies]
anyhow = "1"
dirs = "*"
futures = "0.3"
humansize = "2"
image = { version = "0.25", default-features = false, features = ["gif", "jpeg", "png", "webp", "tiff"] }
include_dir = "0.7"
instant = "0.1"
libcaesium = "*"
rayon = "1"
smallvec = "1"
