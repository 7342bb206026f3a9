[package]
name = "zode"
version = "0.1.0"
edition = "2021"
publish = false

[dependencies]
serde_json = "1"
tokio = { version = "1", features = ["rt-multi-thread", "sync", "time", "macros"] }
tracing = "0.1"
egui = "*"
eframe = { version = "*", default-features = false }
egui-phosphor = "*"
image = { version = "*", default-features = false, features = ["png"] }
