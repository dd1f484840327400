[package]
name = "ethercat_pdu"
version = "0.1.0"
edition = "2021"
publish = false

[dependencies]
env_logger = "0.10"
log = "0.4"
spin = "0.9"
tokio = { version = "1", features = ["rt", "rt-multi-thread", "sync"] }
