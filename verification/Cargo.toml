[package]
name = "seekwel"
version = "0.1.15"
edition = "2021"
publish = false

[dependencies]
rusqlite = { version = "=0.41.1", features = ["bundled"] }
serde = { version = "=1.0.229", features = ["derive"] }
log = "=0.4.35"
tokio = { version = "=1.54.1", features = ["rt", "rt-multi-thread"] }
syn = { version = "=3.0.9", features = ["full"] }
quote = "=1.0.47"
proc-macro2 = "=1.0.107"
