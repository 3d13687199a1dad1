[package]
name = "bluemap_edge"
version = "0.1.0"
edition = "2021"
publish = false

[dependencies]
axum = "*"
axum-server = { version = "*", features = ["tls-rustls"] }
clap = { version = "*", features = ["derive"] }
reqwest = { version = "*", default-features = false, features = ["stream"] }
tokio = { version = "*", features = ["macros", "rt-multi-thread", "net", "fs", "io-util"] }
tracing = "*"
tracing-subscriber = "*"
