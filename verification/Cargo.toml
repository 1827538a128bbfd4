[package]
name = "genpwd"
version = "0.1.0"
edition = "2021"
publish = false

[dependencies]
rand = "=0.8.8"
qr_code = { version = "=2.0.0", features = ["bmp"] }
clap = "=4.6.7"
sdl2 = "=0.38.0"
