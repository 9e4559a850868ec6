[package]
name = "sol_p4_tools"
version = "0.1.0"
edition = "2021"
publish = false

[dependencies]
sha1 = "0.10"
serde = { version = "1", features = ["derive"] }
serde_json = "1"
tauri = { version = "2", default-features = false }
windows-sys = { version = "0.59", features = ["Win32_Globalization"] }
