[package]
name = "hyper_middleware"
version = "0.1.0"
edition = "2021"
publish = false

[dependencies]
anyhow = "1"
async-recursion = "1"
async-trait = "0.1"
hyper = { version = "0.14", default-features = false, features = ["http1", "server", "tcp"] }
thiserror = "1"

[dev-dependencies]
tokio = { version = "1", features = ["rt"] }
