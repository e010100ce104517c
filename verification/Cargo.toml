[package]
name = "screen_match"
version = "0.1.0"
edition = "2021"
publish = false

[dependencies]
anyhow = "=1.0.104"
chrono = "=0.4.45"
env_logger = "=0.11.11"
image = { version = "=0.25.10", default-features = false, features = ["png"] }
imageproc = { version = "=0.26.2", default-features = false }
log = "=0.4.34"
ocrs = "=0.13.1"
rand = "=0.9.5"
rten = "=0.26.0"
rust-droid = "=0.1.1"
