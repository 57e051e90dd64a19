[package]
name = "relay_core"
version = "0.1.0"
edition = "2021"
publish = false

[dependencies]
hex = "=0.4.3"
rand = "=0.10.3"
ockam_multiaddr = { version = "=0.10.0", features = ["std"] }
clap = { version = "=4.6.7", features = ["derive"] }
anyhow = "=1.0.104"
