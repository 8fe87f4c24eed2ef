[package]
name = "battery_tray"
version = "0.1.0"
edition = "2021"
publish = false

[dependencies]
image = { version = "0.25", default-features = false, features = ["bmp", "png"] }
starship-battery = "0.10"
tray-icon = "0.21"
winit = "0.30"
