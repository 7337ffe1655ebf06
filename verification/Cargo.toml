[package]
name = "pubnub_core"
version = "0.1.0"
edition = "2021"
publish = false

[dependencies]
async-trait = "0.1"
dashmap = "3"
futures-util = "0.3"
hyper = "0.13"
hyper-tls = "0.4"
json = "0.12"
log = "0.4"
tokio = { version = "0.2", features = ["sync", "rt-core"] }
