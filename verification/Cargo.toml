[package]
name = "terminar-core"
version = "0.1.0"
edition = "2021"
publish = false

[dependencies]
anyhow = "1"
libc = "0.2"
nix = { version = "0.29", features = ["term", "process", "fs"] }
parking_lot = "0.12"
portable-pty = "0.8"
serde = { version = "1", features = ["derive"] }
serde_json = "1"
tempfile = "3"
tokio = { version = "1", features = ["rt", "rt-multi-thread", "sync", "macros", "time"] }
tracing = "0.1"
uuid = { version = "1", features = ["v4"] }
zstd = "0.13"
