[package]
name = "fifo-mempool"
version = "0.1.0"
edition = "2021"
publish = false

[dependencies]
prost = "*"
prost-types = "*"
ractor = "*"
tokio = { version = "*", features = ["rt-multi-thread", "macros", "sync", "time"] }
serde = { version = "*", features = ["derive"] }
thiserror = "*"
tracing = "*"
bytesize = "*"
libp2p-identity = { version = "*", features = ["ed25519", "peerid"] }
