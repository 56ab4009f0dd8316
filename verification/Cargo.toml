[package]
name = "tdfu_cli"
version = "2.0.0-alpha.1"
edition = "2021"
publish = false

[dependencies]
clap = { version = "4", features = ["derive"] }
socket2 = { version = "*", features = ["all"] }
thiserror = "2"
tracing = "0.1"
tracing-subscriber = "0.3"
