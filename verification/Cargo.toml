[package]
name = "quic_messaging"
version = "0.1.0"
edition = "2021"
publish = false

[dependencies]
anyhow = "1"
bincode = "2"
quinn = { version = "0.11", default-features = false, features = ["runtime-tokio", "rustls"] }
rcgen = "0.14"
tokio = { version = "1", features = ["macros", "rt-multi-thread", "time"] }
