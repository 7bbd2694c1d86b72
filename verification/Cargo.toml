[package]
name = "crabipie"
version = "0.1.0"
edition = "2021"
publish = false

[dependencies]
base64 = "0.22"
eframe = { version = "0.31", default-features = false, features = ["default_fonts", "glow", "x11"] }
egui_extras = { version = "0.31", default-features = false, features = ["image"] }
opener = "0.7"
reqwest = { version = "0.12", default-features = false, features = ["charset", "default-tls", "http2", "multipart"] }
serde_json = "1"
tokio = { version = "1", features = ["rt-multi-thread"] }
