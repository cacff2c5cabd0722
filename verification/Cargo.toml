[package]
name = "cosmic_noise"
version = "0.1.0"
edition = "2021"
publish = false

[dependencies]
serde = { version = "=1.0.229", features = ["derive"] }
confy = "=2.0.0"
dirs = "=7.0.0"
walkdir = "=2.5.0"
log = "=0.4.35"
env_logger = "=0.11.11"
kira = { version = "=0.10.8", default-features = false, features = ["mp3", "ogg", "flac", "wav"] }
iced = { version = "=0.14.0", default-features = false, features = ["tiny-skia", "svg", "advanced", "thread-pool", "x11"] }
