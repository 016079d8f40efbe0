[package]
name = "j3term"
version = "0.1.0"
edition = "2021"
publish = false

[dependencies]
alacritty_terminal = "0.25"
portable-pty = "0.9"
serde = { version = "1", features = ["derive"] }
toml = "0.9"
