[package]
name = "wolf_screen_recorder"
version = "0.1.0"
edition = "2021"
publish = false

[dependencies]
serde = { version = "=1.0.229", features = ["derive"] }
serde_json = "=1.0.154"
image = { version = "=0.25.10", default-features = false, features = ["png"] }
imageproc = { version = "=0.27.0", default-features = false, features = ["text"] }
ab_glyph = "=0.2.32"
chrono = "=0.4.45"
sysinfo = "=0.40.1"
dirs = "=7.0.0"
hound = "=3.5.1"
cpal = "=0.18.2"
rdev = "=0.5.3"
open = "=5.4.5"
arboard = "=3.7.0"
rfd = "=0.17.2"
xcap = "=0.9.8"
