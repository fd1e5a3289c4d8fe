[package]
name = "screwdriver"
version = "0.1.0"
edition = "2021"
publish = false

[dependencies]
anyhow = "1"
atomic_float = "1"
cpal = "0.15"
crossterm = "0.28"
hound = "3"
ratatui = "0.29"
ringbuf = "0.4"
symphonia = { version = "0.5", features = ["mp3"] }
tracing = "0.1"
tracing-subscriber = { version = "0.3", features = ["env-filter"] }
