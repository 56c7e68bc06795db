[package]
name = "clock_widget"
version = "0.1.0"
edition = "2021"
publish = false

[dependencies]
chrono = { version = "0.4", default-features = false, features = ["clock"] }
eframe = { version = "0.22", default-features = false, features = ["default_fonts", "glow"] }
egui = "0.22"
image = { version = "0.24", default-features = false, features = ["png"] }
rust-ini = "0.19"
