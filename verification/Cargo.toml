[package]
name = "mki"
version = "0.1.0"
edition = "2021"
publish = false

[dependencies]
serde = { version = "1", features = ["derive"] }
serde_yaml = "*"
uinput = "*"
input = "*"
nix = "*"
libc = "*"
