[package]
name = "etuf"
version = "0.1.0"
edition = "2021"
publish = false

[dependencies]
aes-gcm = "0.10"
sha2 = "0.10"
x25519-dalek = "2"
bytes = "1.10"
tokio = { version = "1", features = ["net", "io-util", "time", "sync", "rt", "rt-multi-thread", "macros"] }
