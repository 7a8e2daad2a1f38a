[package]
name = "regspace"
version = "0.1.0"
edition = "2021"
publish = false

[dependencies]
bitstruct = "0.1"
erased-serde = "0.3"
lazy_static = "1"
serde = { version = "1", features = ["derive"] }
serde_derive = "1"
thiserror = "1"
tokio = { version = "1", default-features = false, features = ["rt"] }
toml = "0.5"
