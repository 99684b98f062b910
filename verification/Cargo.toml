[package]
name = "cosmic_eyes"
version = "0.1.0"
edition = "2021"
publish = false

[dependencies]
cosmic-client-toolkit = "=0.2.0"
futures = "=0.3.34"
tracing = "=0.1.44"
tracing-subscriber = { version = "=0.3.23", features = ["env-filter"] }
wayland-client = "=0.31.15"
