[package]
name = "vt_muxer"
version = "0.1.0"
edition = "2021"
publish = false

[dependencies]
flume = "0.11"
parking_lot = "0.12"
replace_with = "0.1"
tokio = { version = "1", features = ["io-util", "net", "rt", "sync"] }
