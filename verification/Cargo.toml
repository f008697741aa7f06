[package]
name = "xpty"
version = "0.2.0"
edition = "2021"
rust-version = "1.70"
publish = false

[dependencies]
downcast-rs = "2.0"
filedescriptor = "0.8"
libc = "0.2"
log = "0.4"
nix = { version = "0.29", features = ["fs", "term"] }
serde = { version = "1", features = ["derive"] }
serial2 = { version = "0.2", features = ["unix"] }
shell-words = "1"
thiserror = "2"
windows-sys = { version = "0.59", features = ["Win32_Foundation", "Win32_Security", "Win32_System_Console", "Win32_System_Environment", "Win32_System_Threading"] }
winreg = "0.55"
