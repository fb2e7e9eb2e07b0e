[package]
name = "app_locker"
version = "0.1.0"
edition = "2021"
publish = false

[dependencies]
anyhow = "1"
clap = { version = "4", features = ["derive"] }
dirs = "*"
rpassword = "*"
image = { version = "*", default-features = false, features = ["png"] }
eframe = { version = "*", default-features = false, features = ["glow", "x11", "default_fonts"] }
