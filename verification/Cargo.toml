[package]
name = "cratetorrent"
version = "0.1.0"
edition = "2021"
publish = false

[dependencies]
percent-encoding = "2"
rand = "0.8"
reqwest = { version = "0.11", default-features = false }
tokio = { version = "1", features = ["net", "time", "rt"] }

[dev-dependencies]
serde_bencode = "0.2"
