[package]
name = "evdev_accel"
version = "0.1.0"
edition = "2021"
publish = false

[dependencies]
clap = { version = "4", features = ["derive"] }
evdev = "0.12"
figment = { version = "0.10", features = ["toml"] }
serde = { version = "1", features = ["derive"] }
