[package]
name = "minute_of_silence"
version = "0.2.0"
edition = "2021"
publish = false

[dependencies]
png = "*"
base64 = "0.22"
chrono = "0.4"
chrono-tz = "0.10"
serde = { version = "1", features = ["derive"] }
log = "0.4"
tokio = { version = "1", features = ["rt", "time", "macros", "sync"] }
async-trait = "0.1"
lazy_static = "1"
zbus = "5"
alsa = "0.9"
libloading = "0.8"
