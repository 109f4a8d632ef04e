[package]
name = "ci_lisp"
version = "0.1.0"
edition = "2021"
publish = false

[dependencies]
im = "15.1"
thiserror = "2"
reedline = "*"
clap = { version = "4", features = ["derive"] }
egui = "*"
eframe = { version = "*", default-features = false, features = ["glow", "x11", "default_fonts"] }
