[package]
name = "rsh"
version = "0.2.3"
edition = "2021"
publish = false

[dependencies]
nix = { version = "0.30", features = ["fs", "process", "signal", "term", "user", "hostname"] }
rustyline = "*"
serde = { version = "1", features = ["derive"] }
serde_json = "1"
termion = "*"
