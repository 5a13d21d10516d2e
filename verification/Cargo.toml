[package]
name = "attractor"
version = "0.1.0"
edition = "2021"
publish = false

[dependencies]
rayon = "1"
rand = "0.8"
colorgrad = "0.6.2"
eframe = { version = "0.22.0", default-features = false, features = ["glow", "default_fonts"] }
