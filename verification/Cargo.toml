[package]
name = "lds"
version = "0.1.0"
edition = "2021"
publish = false

[dependencies]
arboard = "3"
chrono = "0.4"
clap = { version = "4", features = ["derive"] }
color-eyre = "0.6"
cpal = "0.15"
enigo = "*"
fancy-regex = "*"
futures-util = "0.3"
regex = "1"
serde = { version = "1", features = ["derive"] }
serde_json = "1"
tempfile = "3"
tokio = { version = "1", features = ["full"] }
tokio-tungstenite = "*"
toml = "*"
wayland-client = "0.31"
wayland-protocols-misc = { version = "0.3", features = ["client"] }
whisper-rs = "*"
xkbcommon = "*"
