[package]
name = "gossip_transport"
version = "0.1.0"
edition = "2021"
publish = false

[dependencies]
futures = "0.3"
libp2p = { version = "0.56", features = ["dns", "gossipsub", "macros", "mdns", "noise", "tcp", "tokio", "yamux"] }
paris = { version = "1.5", features = ["macros"] }
tokio = { version = "1", features = ["macros", "rt", "sync", "time"] }
