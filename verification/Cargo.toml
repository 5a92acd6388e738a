[package]
name = "hdrt"
version = "0.1.0"
edition = "2021"
publish = false

[dependencies]
anyhow = "1"
clap = { version = "4", features = ["derive"] }
crossterm = "0.28"
libc = "0.2"
ratatui = "0.29"
serde = { version = "1", features = ["derive"] }
serde_json = "1"
sysinfo = "0.32"
tabled = "0.17"
windows-sys = { version = "0.59", features = ["Win32_Foundation", "Win32_Security"] }
winreg = "*"
wmi = "*"
