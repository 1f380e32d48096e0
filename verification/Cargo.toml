[package]
name = "maono"
version = "0.1.0"
edition = "2021"
publish = false

[dependencies]
ratatui = "0.29"
crossterm = "0.28"
eframe = { version = "*", default-features = false, features = ["glow", "default_fonts", "x11"] }
