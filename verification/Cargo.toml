[package]
name = "gluon"
version = "0.1.0"
edition = "2021"
publish = false

[dependencies]
libc = "=0.2.191"
serde = { version = "=1.0.229", features = ["derive"] }
tokio = { version = "=1.54.1", features = ["rt-multi-thread", "macros", "net", "io-util", "sync"] }
toml = "=0.8.23"
