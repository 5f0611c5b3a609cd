[package]
name = "danger_write"
version = "0.1.0"
edition = "2021"
publish = false

[dependencies]
ratatui = "=0.30.2"
ratzilla = "=0.3.0"
wasm-bindgen-futures = "*"
web-sys = { version = "*", features = ["Clipboard", "Document", "FontFaceSet", "KeyboardEvent", "Navigator", "Window"] }
web-time = "*"
