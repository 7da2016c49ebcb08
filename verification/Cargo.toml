[package]
name = "libp2p-bistream"
version = "0.1.0"
edition = "2021"
publish = false

[dependencies]
anyhow = "1"
clap = { version = "4", features = ["derive"] }
futures = "0.3"
libp2p = { version = "0.52", default-features = false, features = ["noise", "tcp", "tokio", "yamux"] }
pretty-bytes = "0.2"
smallvec = "1"
thiserror = "1"
tokio = { version = "1", features = ["macros", "net", "rt-multi-thread", "sync", "time"] }
tracing = "0.1"
tracing-subscriber = "0.3"
