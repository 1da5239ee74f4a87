[package]
name = "aviutl2_font_select_helper"
version = "0.1.0"
edition = "2021"
publish = false

[dependencies]
aviutl2 = "0.38.2"
encoding_rs = "=0.8.44"
windows = { version = "=0.58.0", features = [
    "Win32_Foundation",
    "Win32_System_Diagnostics_Debug",
    "Win32_System_Threading",
    "Win32_UI_Accessibility",
    "Win32_UI_WindowsAndMessaging",
] }
