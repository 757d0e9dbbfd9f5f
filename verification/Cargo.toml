[package]
name = "debug_session"
version = "0.1.0"
edition = "2021"
publish = false

[dependencies]
futures = "=0.3.34"
serde_json = "=1.0.154"
smallvec = "1"
