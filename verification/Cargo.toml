[package]
name = "tracedbg"
version = "0.1.0"
edition = "2021"
publish = false

[dependencies]
nix = "0.23"
libc = "0.2"
gimli = "0.25"
object = "0.26"
rustyline = "9"
linux-personality = "1"
serde = { version = "1", features = ["derive"] }
serde_json = "1"
