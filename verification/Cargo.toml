[package]
name = "nws"
version = "0.1.0"
edition = "2021"
publish = false

[dependencies]
chrono = { version = "0.4", default-features = false, features = ["std", "clock"] }
log = "0.4"
minreq = { version = "2", features = ["https"] }
serde_json = "1"
