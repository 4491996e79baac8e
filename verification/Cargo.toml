[package]
name = "openvpn_netns_tools"
version = "0.1.0"
edition = "2021"
publish = false

[dependencies]
clap = "2"
libc = "0.2"
nix = { version = "*", features = ["fs", "poll", "process", "signal"] }
