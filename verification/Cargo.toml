[package]
name = "rust_tcp_vpn"
version = "0.1.0"
edition = "2021"
publish = false

[dependencies]
anyhow = "1"
clap = { version = "4", features = ["derive"] }
ctrlc = "3"
libc = "0.2"
nix = { version = "0.29", features = ["poll", "signal", "fs", "process"] }
socket2 = "0.5"
