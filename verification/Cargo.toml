[package]
name = "runas"
version = "0.1.0"
edition = "2021"
publish = false

[dependencies]
which = "*"
libc = "0.2"
security-framework-sys = "2"
windows-sys = { version = "0.52", features = ["Win32_Foundation", "Win32_System_Com", "Win32_System_Threading", "Win32_UI_Shell", "Win32_UI_WindowsAndMessaging", "Win32_System_Registry"] }
