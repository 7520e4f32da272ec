[package]
name = "albert_eyes"
version = "0.1.0"
edition = "2021"
publish = false

[dependencies]
chrono = "0.4"
rand = "0.9"
serde_json = "1"
evdev = "0.13"
