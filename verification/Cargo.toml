[package]
name = "herdr"
version = "0.1.0"
edition = "2021"
publish = false

[dependencies]
base64 = "0.22"
sha2 = "0.10"
uuid = { version = "1", features = ["v4"] }
unicode-width = "0.2"
serde = { version = "1", features = ["derive"] }
serde_json = "1"
crossterm = "0.29"
ratatui = "0.29"
tokio = { version = "1", features = ["rt", "rt-multi-thread", "sync", "time", "macros"] }
interprocess = "2"
ctrlc = "3"
libc = "0.2"
tracing = "0.1"
