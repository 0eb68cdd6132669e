[package]
name = "ytdlp_gui"
version = "0.1.0"
edition = "2021"
publish = false

[dependencies]
arboard = { version = "3.6.1", default-features = false }
dirs = "7.0.0"
eframe = { version = "0.36.2", default-features = false, features = ["glow", "x11", "default_fonts"] }
egui = { version = "0.36.2", default-features = false }
rfd = "0.17.2"
