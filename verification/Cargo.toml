[package]
name = "catga_flow"
version = "0.1.0"
edition = "2021"
publish = false

[dependencies]
arc-swap = "1"
async-trait = "0.1"
dashmap = "=6.2.1"
futures = "0.3"
postcard = { version = "1", features = ["alloc"] }
proc-macro2 = "=1.0.107"
quote = "=1.0.47"
serde = { version = "1", features = ["derive"] }
syn = { version = "=3.0.9", features = ["full"] }
tokio = { version = "1", features = ["sync", "time", "macros", "rt"] }
tokio-util = "0.7"
tracing = "0.1"
