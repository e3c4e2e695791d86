[package]
name = "autarkie"
version = "0.1.0"
edition = "2021"
publish = false

[dependencies]
bincode = "1.3.3"
parity-scale-codec = { version = "3", default-features = false, features = ["std"] }
serde = { version = "1", features = ["derive"] }
twox-hash = "1.6.3"
