[package]
name = "desktop_neko"
version = "0.1.0"
edition = "2021"
publish = false

[dependencies]
image = "0.24"
serde = { version = "1", features = ["derive"] }
toml = "0.8"
rand = "0.8"
slint = { version = "1", default-features = false, features = ["std", "compat-1-2"] }
tray-icon = { version = "*", default-features = false }
env_logger = "*"
