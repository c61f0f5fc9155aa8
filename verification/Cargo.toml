[package]
name = "etf_image_tools"
version = "0.1.0"
edition = "2021"
publish = false

[dependencies]
pathdiff = "=0.2.3"
kamadak-exif = "=0.5.5"
image = { version = "=0.24.9", default-features = false, features = ["png", "jpeg", "hdr"] }
colorbox = "=0.4.0"
