[package]
name = "jdkman"
version = "0.1.0"
edition = "2021"
publish = false

[dependencies]
clap = "4"
dirs = "*"
rust-i18n = "*"
serde = { version = "1", features = ["derive"] }
serde_json = "1"
sys-locale = "*"
winapi = { version = "0.3", features = ["winuser", "minwindef"] }
winreg = "*"
