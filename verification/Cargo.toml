[package]
name = "realm_session"
version = "0.1.0"
edition = "2021"
publish = false

[dependencies]
rustix = { version = "1", features = ["event", "time", "process", "fs", "net"] }
jiff = "0.2"
nix = { version = "0.30", features = ["socket", "uio"] }
serde = { version = "1", features = ["derive"] }
serde_json = "1"
thiserror = "2"
