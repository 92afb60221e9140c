[package]
name = "ledger_node"
version = "0.1.0"
edition = "2021"
publish = false

[dependencies]
sha2 = "*"
actix-web = { version = "*", default-features = false, features = ["macros"] }
clap = { version = "*", features = ["derive"] }
libp2p = { version = "*", default-features = false, features = ["gossipsub", "mdns", "tokio", "tcp", "noise", "yamux", "macros"] }
log = "*"
serde = { version = "*", features = ["derive"] }
serde_json = "*"
simple_logger = "*"
tokio = { version = "*", features = ["macros", "rt", "sync", "time", "rt-multi-thread"] }
