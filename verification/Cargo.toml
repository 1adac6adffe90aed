[package]
name = "voice_toolkit"
version = "0.1.0"
edition = "2021"
publish = false

[dependencies]
rubato = "0.16"
hound = "3.5"
ffmpeg-sidecar = { version = "*", default-features = false }
whisper-rs = "*"
tokio = { version = "1", features = ["rt", "sync", "time", "process"] }
serde = { version = "1", features = ["derive"] }
thiserror = "1"
which = "*"
async-trait = "0.1"
log = "0.4"
