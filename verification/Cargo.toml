[package]
name = "soto"
version = "0.1.0"
edition = "2021"
publish = false

[dependencies]
fbx_direct = "*"
cgmath = "*"
serde = "*"
serde_derive = "*"
serde_json = "*"
toml = "*"
walkdir = "*"
slog = "*"
slog-term = "*"
