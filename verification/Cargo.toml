[package]
name = "punch"
version = "0.1.0"
edition = "2021"
publish = false

[dependencies]
anyhow = "1"
clap = { version = "4", features = ["derive"] }
dirs = "*"
iroh = "*"
rand = "*"
tokio = { version = "1", features = ["full"] }
