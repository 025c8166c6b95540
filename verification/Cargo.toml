[package]
name = "badwire"
version = "0.1.0"
edition = "2021"
publish = false

[dependencies]
nix = { version = "*", features = ["user"] }
serde = { version = "1", features = ["derive"] }
serde_json = "1"
dirs = "*"
gtk = "0.18"
gio = "0.18"
