[package]
name = "risq"
version = "0.1.0"
edition = "2021"
publish = false

[dependencies]
actix = "*"
bitcoin_hashes = "*"
bufstream = "*"
futures-locks = "*"
hex = "*"
prost = "*"
rand = "*"
socks = "*"
tokio = { version = "1", features = ["net", "io-util", "sync", "rt", "rt-multi-thread", "time", "macros"] }
uuid = { version = "*", features = ["v4"] }
