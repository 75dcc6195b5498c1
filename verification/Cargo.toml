[package]
name = "dgi"
version = "0.1.0"
edition = "2021"
publish = false

[dependencies]
chrono = "*"
dashmap = "*"
msgbox = "*"
pollster = "*"
serde = { version = "1", features = ["derive"] }
serde_json = "1"
serde_repr = "*"
thiserror = "*"
thread-id = "*"
wgpu = "*"
winit = "*"
