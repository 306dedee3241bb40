[package]
name = "localpass"
version = "0.1.0"
edition = "2021"
publish = false

[dependencies]
getrandom = "0.3"
zeroize = "1"
serde = { version = "1", features = ["derive"] }
x11rb = "0.13"
windows-sys = { version = "0.59", features = ["Win32_Foundation", "Win32_System_DataExchange", "Win32_System_Memory", "Win32_UI_WindowsAndMessaging"] }
objc2-app-kit = { version = "0.3", features = ["NSPasteboard"] }
objc2-foundation = { version = "0.3", features = ["NSData", "NSString"] }
