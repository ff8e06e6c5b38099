[package]
name = "yt_raymarch_2d"
version = "0.1.0"
edition = "2021"
publish = false

[dependencies]
bevy = { version = "=0.11.3", default-features = false }
web-sys = { version = "0.3", features = ["Window", "Location"] }
