[package]
name = "genshin_auto"
version = "0.1.0"
edition = "2021"
publish = false

[dependencies]
env_logger = "0.11"
image = "0.25"
log = "0.4"
notify-rust = "4"
xcap = "0.4"
