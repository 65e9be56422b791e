[package]
name = "greetd_client"
version = "0.1.0"
edition = "2021"
publish = false

[dependencies]
greetd_ipc = { version = "*", features = ["sync-codec"] }
clap = { version = "*", features = ["derive"] }
rust-ini = "*"
shlex = "*"

[dev-dependencies]
serde_json = "*"
