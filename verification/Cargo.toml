[package]
name = "rmlx_server"
version = "0.1.0"
edition = "2021"
publish = false

[dependencies]
anyhow = "=1.0.104"
axum = { version = "=0.8.9", features = ["tokio", "http1", "json"] }
clap = { version = "=4.6.7", features = ["derive", "env"] }
parking_lot = "=0.12.5"
serde_json = "=1.0.154"
tokio = { version = "=1.54.1", features = ["rt-multi-thread", "net", "signal", "time", "sync", "macros"] }
tracing = "=0.1.44"
uuid = { version = "1", features = ["v4"] }
