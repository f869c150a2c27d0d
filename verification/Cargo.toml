[package]
name = "clip_track"
version = "0.1.0"
edition = "2021"
publish = false

[dependencies]
fs_extra = "1.3"
tauri = { version = "2", default-features = false, features = ["wry"] }
