[package]
name = "bevy_svg_map"
version = "0.1.0"
edition = "2021"
publish = false

[dependencies]
bevy = { version = "0.5", default-features = false, features = ["render"] }
euclid = "0.22"
lyon = { version = "0.17", features = ["svg"] }
roxmltree = "0.14"
svgtypes = "0.5"
