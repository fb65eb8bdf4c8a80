[package]
name = "coreos_install"
version = "0.1.0"
edition = "2021"
publish = false

[dependencies]
anyhow = "1"
glob = "0.3"
nix = { version = "0.25", default-features = false, features = ["mount"] }
tempfile = "3"
