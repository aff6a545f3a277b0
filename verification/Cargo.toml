[package]
name = "netstack"
version = "0.1.0"
edition = "2021"
publish = false

[dependencies]
socket2 = { version = "0.5", features = ["all"] }
clap = { version = "4", features = ["derive"] }
