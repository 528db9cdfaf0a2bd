[package]
name = "voice_journal"
version = "0.1.0"
edition = "2021"
publish = false

[dependencies]
symphonia = { version = "=0.5.5", features = ["all"] }
cpal = "=0.18.2"
dirs = "=7.0.0"
reqwest = { version = "=0.13.5", default-features = false, features = ["stream"] }
futures-util = "=0.3.34"
once_cell = "=1.21.4"
chrono = "=0.4.45"
regex = "=1.13.1"
whisper-rs = "=0.16.0"
