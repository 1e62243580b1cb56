[package]
name = "client"
version = "0.1.0"
edition = "2021"
publish = false

[dependencies]
crossbeam-channel = "=0.5.17"
petgraph = "=0.7.1"
serde = { version = "=1.0.229", features = ["derive"] }
serde_json = "=1.0.154"
rand = "=0.9.5"
ratatui = { version = "=0.29.0", features = ["unstable-rendered-line-info"] }
tui-scrollview = "0.5"
unicode-width = "=0.2.0"
