[package]
name = "termula"
version = "0.1.0"
edition = "2021"
publish = false

[dependencies]
anyhow = "1"
base64 = "0.22"
clap = { version = "4", features = ["derive"] }
clap_complete = "4"
libc = "0.2"
portable-pty = "0.8"
serde = { version = "1", features = ["derive"] }
signal-hook = "0.3"
tempfile = "3"
toml = "0.8"
wait-timeout = "0.2"
