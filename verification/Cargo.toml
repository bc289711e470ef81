[package]
name = "win_screen_core"
version = "0.1.0"
edition = "2021"
publish = false

[dependencies]
image = { version = "0.25", default-features = false, features = ["png", "jpeg"] }
base64 = "0.22"
serde = { version = "1", features = ["derive"] }
thiserror = "1"
arboard = "3"
crossbeam-channel = "0.5"
tracing = "0.1"
anyhow = "1"
clap = { version = "4", features = ["derive"] }
windows = { version = "0.58", features = ["Win32_Foundation", "Win32_Graphics_Gdi", "Win32_Graphics_Dwm", "Win32_UI_WindowsAndMessaging", "Win32_UI_Input_KeyboardAndMouse", "Win32_System_LibraryLoader", "Win32_UI_HiDpi", "Win32_System_Threading", "Win32_Media_Audio", "Win32_System_Com"] }
windows-capture = "1.4"
