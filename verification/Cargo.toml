[package]
name = "packet_visualizer"
version = "0.1.0"
edition = "2021"
publish = false

[dependencies]
pnet = "*"
pnet_datalink = "*"
rand = "0.8"
sdl2 = { version = "*", features = ["image", "gfx"] }
