[package]
name = "flyover"
version = "0.3.1"
edition = "2021"
publish = false

[dependencies]
serde = { version = "1", features = ["derive"] }
serde_json = "1"
toml = "0.8"
csv = "1"
ureq = "3"
tiny-skia = "0.11"
fontdue = "0.9"
image = { version = "0.25", default-features = false, features = ["png"] }
ratatui = "0.29"
ratatui-image = "8"
crossterm = "0.28"
