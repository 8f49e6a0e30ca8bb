[package]
name = "ksx-backend"
version = "0.1.0"
edition = "2021"
publish = false

[dependencies]
anyhow = "1"
crossbeam-channel = "0.5"
hdrhistogram = "7"
serde = { version = "1", features = ["derive"] }
serde_json = "1"
thiserror = "*"
tracing = "0.1"
windows-sys = { version = "0.59", features = ["Win32_System_Performance", "Win32_System_Diagnostics_Debug", "Win32_Media", "Win32_System_Console", "Win32_Foundation"] }
