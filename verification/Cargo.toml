[package]
name = "runtpl"
version = "0.1.0"
edition = "2021"
publish = false

[dependencies]
serde_json = "=1.0.154"
clap = { version = "=4.6.7", features = ["derive"] }
walkdir = "=2.5.0"
tempfile = "=3.27.0"
arboard = { version = "=3.7.0", default-features = false }
dirs = "=7.0.0"
edit = "=0.1.5"

[dev-dependencies]
regex = "1"
