[package]
name = "specter_bin"
version = "0.1.0"
edition = "2021"
publish = false

[dependencies]
crossbeam = "0.8"
humantime = "2"
mio = { version = "1", features = ["os-poll", "os-ext", "net"] }
serde = { version = "1", features = ["derive"] }
serde_json = "1"
signal-hook = "0.3"
tracing = "0.1"
