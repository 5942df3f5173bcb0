[package]
name = "navi"
version = "0.1.0"
edition = "2021"
publish = false

[dependencies]
rand = "0.9"
glob = "0.3"
clap = { version = "4", features = ["derive"] }
serde = { version = "1", features = ["derive"] }
serde_json = "1"
tokio = { version = "1", features = ["full"] }
console = "0.15"
