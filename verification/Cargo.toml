[package]
name = "taploot"
version = "0.1.0"
edition = "2021"
publish = false

[dependencies]
etherparse = "*"
pcap-parser = "*"
toml = "*"
serde = { version = "1", features = ["derive"] }
thiserror = "*"
rusqlite = { version = "*", features = ["bundled"] }
