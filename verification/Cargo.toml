[package]
name = "tiled_map"
version = "0.1.0"
edition = "2021"
publish = false

[dependencies]
anyhow = "1"
base64 = "=0.13.1"
bevy = { version = "=0.5.0", default-features = false }
byteorder = "=1.5.0"
darling = "=0.10.2"
quick-xml = "=0.22.0"
