[package]
name = "turtlers"
version = "0.1.0"
edition = "2021"
publish = false

[dependencies]
anyhow = "*"
rand = "*"
serde = "*"
serde_derive = "*"
serde_json = "*"
tungstenite = "*"
