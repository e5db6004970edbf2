[package]
name = "evtc"
version = "0.1.0"
edition = "2021"
publish = false

[dependencies]
fnv = "1.0"
serde = { version = "1.0", features = ["derive"] }
serde_json = "1.0"
clap = { version = "2.34", default-features = false }
regex = "1"
zip = { version = "0.6", default-features = false, features = ["deflate"] }
memmap = "0.7"
