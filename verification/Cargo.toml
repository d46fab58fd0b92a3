[package]
name = "window_capture"
version = "0.1.0"
edition = "2021"
publish = false

[dependencies]
windows = { version = "0.59", features = ["Win32_Foundation", "Win32_Graphics_Gdi", "Win32_UI_WindowsAndMessaging"] }
