[package]
name = "p2p_udp"
version = "0.1.0"
edition = "2021"
publish = false

[dependencies]
chashmap = "2.2"
serde = { version = "1", features = ["derive"] }
serde_json = "1"
md5 = "0.7"
flume = "0.11"
tokio = { version = "1", features = ["net", "rt-multi-thread", "macros", "time", "sync"] }
lazy_static = "1"
spin = "0.9"
