[package]
name = "sqld_core"
version = "0.1.0"
edition = "2021"
publish = false

[dependencies]
anyhow = "*"
bytes = "*"
clap = { version = "*", features = ["derive"] }
futures = "*"
pin-project-lite = "*"
sha256 = "*"
tokio = { version = "*", features = ["full"] }
tokio-util = { version = "*", features = ["io", "io-util"] }
