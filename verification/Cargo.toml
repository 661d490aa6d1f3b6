[package]
name = "hyperbroadcast"
version = "0.1.0"
edition = "2021"
publish = false

[dependencies]
anyhow = "=1.0.104"
async-std = "=1.13.2"
bastion = { version = "=0.4.5", features = ["tokio-runtime"] }
blake2 = "=0.10.6"
clap = { version = "=3.2.25", features = ["derive"] }
futures = "=0.3.34"
hex = "=0.4.3"
hypercore_handshake = "=0.6.0"
hyperswarm = "=0.1.0"
log = "=0.4.34"
log4rs = "=1.4.0"
tokio = { version = "=1.54.1", features = ["macros", "rt-multi-thread", "sync"] }
