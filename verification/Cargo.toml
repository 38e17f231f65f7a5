[package]
name = "app_shell"
version = "0.1.0"
edition = "2021"
publish = false

[dependencies]
anyhow = "1"
log = "0.4"
wry = { version = "0.19", default-features = false }
