[package]
name = "librenet"
version = "0.1.0"
edition = "2021"
publish = false

[dependencies]
aes-gcm = "=0.10.3"
rand = "=0.8.8"
ed25519-dalek = "=2.2.0"
sha2 = "=0.10.9"
hex = "=0.4.3"
reed-solomon-erasure = "=6.0.0"
serde = { version = "=1.0.229", features = ["derive"] }
serde_json = "=1.0.154"
clap = { version = "=4.6.7", features = ["derive"] }
tokio = { version = "=1.54.1", features = ["rt-multi-thread", "macros", "sync", "time", "io-util"] }
tracing = "=0.1.44"
tracing-subscriber = "=0.3.23"
futures = "=0.3.34"
libp2p = { version = "=0.53.2", features = ["tokio", "tcp", "noise", "yamux", "kad", "gossipsub", "macros"] }
tun = { version = "0.5", features = ["async"] }
