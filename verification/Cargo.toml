[package]
name = "dns_online"
version = "0.1.0"
edition = "2021"
publish = false

[dependencies]
clap = "2"
curl = "0.4"
serde = { version = "1", features = ["derive"] }
serde_derive = "1"
serde_json = "1"
