[package]
name = "whistler"
version = "0.1.0"
edition = "2021"
publish = false

[dependencies]
syntect = { version = "=5.3.0", default-features = false, features = ["default-fancy"] }
iced = { version = "=0.14.0", default-features = false, features = ["markdown", "advanced", "x11", "tiny-skia", "thread-pool"] }
rfd = { version = "=0.16.1", default-features = false, features = ["xdg-portal", "tokio"] }
ignore = "=0.4.33"
once_cell = "=1.21.4"
serde = { version = "=1.0.229", features = ["derive"] }
serde_json = "=1.0.154"
