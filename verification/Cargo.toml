[package]
name = "whimsy"
version = "0.1.0"
edition = "2021"
publish = false

[dependencies]
names = "=0.14.0"
toml = "=1.1.7"
serde = "=1.0.229"
egui = "=0.36.2"
egui_dock = "=0.21.1"
egui-notify = "=0.23.0"
winit = "=0.30.13"
tracing = "=0.1.44"
tracing-subscriber = "*"
