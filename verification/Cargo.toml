[package]
name = "tinybox"
version = "0.1.0"
edition = "2021"
publish = false

[dependencies]
sha2 = "0.10"
anyhow = "1"
axum = "0.7"
clap = { version = "4", features = ["derive"] }
flate2 = "1"
libc = "0.2"
nix = { version = "0.29", features = ["sched", "mount", "signal", "process", "fs", "socket", "uio", "hostname", "user", "fs"] }
reqwest = { version = "0.12", default-features = false, features = ["blocking", "json", "rustls-tls"] }
seccompiler = "0.4"
serde = { version = "1", features = ["derive"] }
serde_json = "1"
tar = "0.4"
tokio = { version = "1", features = ["rt-multi-thread", "net"] }

[dev-dependencies]
tempfile = "3"
