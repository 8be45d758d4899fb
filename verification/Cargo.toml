[package]
name = "delray"
version = "0.1.0"
edition = "2021"
publish = false

[dependencies]
anyhow = "1"
chrono = "0.4"
clap = { version = "4", features = ["derive"] }
crossterm = "0.28"
etherparse = "*"
listeners = "*"
pcap = "2"
ratatui = "0.29"
serde = { version = "1", features = ["derive"] }
serde_json = "1"
tls-parser = "0.12"
