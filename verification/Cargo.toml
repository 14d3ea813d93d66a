[package]
name = "pairllm"
version = "0.1.0"
edition = "2021"
publish = false

[dependencies]
chrono = "0.4"
eframe = { version = "0.31", default-features = false, features = ["default_fonts", "glow", "wayland", "x11"] }
reqwest = { version = "0.12", default-features = false, features = ["blocking", "json", "rustls-tls"] }
serde = { version = "1", features = ["derive"] }
serde_json = "1"
