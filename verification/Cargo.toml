[package]
name = "mouse_clicker"
version = "1.0.0"
edition = "2021"
publish = false

[dependencies]
rand = "=0.8.8"
rand_distr = "=0.4.3"
image = { version = "=0.24.9", default-features = false, features = ["png"] }
base64 = "=0.21.7"
serde = { version = "=1.0.229", features = ["derive"] }
serde_json = "=1.0.154"
md5 = "=0.7.0"
regex = "=1.13.1"
chrono = "=0.4.45"
crossterm = "=0.27.0"
enigo = "=0.1.3"
windows = { version = "=0.51.1", features = ["Win32_Foundation", "Win32_Graphics_Gdi", "Win32_UI_WindowsAndMessaging", "Win32_System_Console"] }
