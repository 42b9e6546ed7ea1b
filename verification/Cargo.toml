[package]
name = "ardi_agent"
version = "0.5.16"
edition = "2021"
publish = false

[dependencies]
anyhow = "1"
ctrlc = { version = "3", features = ["termination"] }
fs2 = "0.4"
serde = { version = "1", features = ["derive"] }
serde_json = "1"
