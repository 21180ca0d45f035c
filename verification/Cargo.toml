[package]
name = "candle_stick_plotter"
version = "0.1.0"
edition = "2021"
publish = false

[dependencies]
anyhow = "*"
clap = { version = "*", features = ["derive"] }
egui_plot = "*"
env_logger = "*"
log = "*"
thiserror = "*"
