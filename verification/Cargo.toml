[package]
name = "astera"
version = "0.1.0"
edition = "2021"
publish = false

[dependencies]
anyhow = "1"
clap = { version = "4", features = ["derive"] }
kdl = "=6.7.1"
ron = "0.11"
rustix = { version = "1", features = ["event", "fs", "net", "process"] }
serde = { version = "1", features = ["derive"] }
serde_json = "1"
smithay = { version = "0.7", default-features = false, features = ["backend_winit", "desktop", "renderer_gl", "wayland_frontend"] }
thiserror = "2"
tracing = "0.1"
tracing-subscriber = { version = "0.3", features = ["env-filter"] }
xkbcommon = "=0.8.0"
