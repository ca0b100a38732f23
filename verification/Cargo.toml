[package]
name = "ridemap"
version = "0.1.0"
edition = "2021"
publish = false

[dependencies]
anyhow = "*"
clap = { version = "*", features = ["derive"] }
env_logger = "*"
futures = "*"
image = { version = "*", default-features = false, features = ["png"] }
log = "*"
rand = "*"
reqwest = { version = "*", default-features = false, features = ["json"] }
serde = { version = "*", features = ["derive"] }
serde_json = "*"
serde-xml-rs = "*"
tokio = { version = "*", features = ["rt-multi-thread", "net", "io-util", "macros"] }
