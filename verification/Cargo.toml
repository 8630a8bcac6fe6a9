[package]
name = "adaptive_load_balancer"
version = "0.1.0"
edition = "2021"
publish = false

[dependencies]
hyper = { version = "1", features = ["http1", "server", "client"] }
hyper-util = { version = "0.1", features = ["tokio"] }
tokio = { version = "1", features = ["net", "rt", "rt-multi-thread", "macros", "sync", "io-util"] }
dotenvy = "0.15"
