[package]
name = "codex_savings_core"
version = "0.2.1"
edition = "2021"
publish = false

[dependencies]
serde_json = "=1.0.154"
rusqlite = { version = "=0.41.1", features = ["bundled"] }
windows-sys = { version = "=0.59.0", features = ["Win32_Foundation", "Win32_Globalization", "Win32_Graphics_Dwm", "Win32_Graphics_Gdi", "Win32_Graphics_GdiPlus", "Win32_Security", "Win32_System_LibraryLoader", "Win32_System_Registry", "Win32_System_SystemInformation", "Win32_System_Threading", "Win32_System_Time", "Win32_UI_HiDpi", "Win32_UI_Shell", "Win32_UI_WindowsAndMessaging"] }
