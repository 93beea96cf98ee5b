[package]
name = "chessmarkable"
version = "0.1.0"
edition = "2021"
publish = false

[dependencies]
shakmaty = "0.27"
tokio = { version = "1", features = ["sync", "rt", "rt-multi-thread", "time", "macros"] }
tokio-stream = "0.1"
serde = { version = "1", features = ["derive"] }
anyhow = "1"
log = "0.4"
thiserror = "1"
cgmath = "0.18"
image = { version = "0.24", default-features = false, features = ["png"] }
fontdue = "0.9"
drm = "0.12"
drm-fourcc = "2"
libc = "0.2"
fxhash = "0.2"
