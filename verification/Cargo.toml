[package]
name = "pg_doorman"
version = "0.1.0"
edition = "2021"
publish = false

[dependencies]
arc-swap = "1"
bytes = "1"
chrono = "0.4"
dashmap = "6"
futures = "0.3"
log = "0.4"
lru = "*"
once_cell = "1"
parking_lot = "0.12"
prometheus = { version = "0.14", default-features = false }
rand = "0.9"
scopeguard = "1"
tokio = { version = "1", features = ["full"] }
xxhash-rust = { version = "0.8", features = ["xxh3"] }
