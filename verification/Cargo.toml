[package]
name = "fisic"
version = "0.1.0"
edition = "2021"
publish = false

[dependencies]
crc-any = "*"
nuuid = "*"
clap = { version = "*", features = ["derive"] }
memmap = "*"
nix = { version = "*", features = ["fs", "uio"] }
parse-size = "*"
