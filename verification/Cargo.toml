[package]
name = "keystroke"
version = "0.1.0"
edition = "2021"
publish = false

[dependencies]
slint = { version = "1", default-features = false, features = ["std", "compat-1-2"] }
socket2 = { version = "0.5", features = ["all"] }
windows-sys = { version = "0.59", features = ["Win32_UI_Input_KeyboardAndMouse"] }
