[package]
name = "printer_directory"
version = "0.1.0"
edition = "2021"
publish = false

[dependencies]
tauri = { version = "2", default-features = false, features = ["wry"] }
tauri-plugin-fs = { version = "2", default-features = false }
winapi = { version = "0.3.9", features = ["minwindef", "winspool"] }
