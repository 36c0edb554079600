[package]
name = "synapsed"
version = "0.1.0"
edition = "2021"
publish = false

[dependencies]
uuid = { version = "1", features = ["v4"] }
ring = "0.17"
lz4_flex = "0.11"
zstd = "0.13"
blake3 = "1"
hkdf = "0.12"
sha2 = "0.10"
constant_time_eq = "0.3"
chacha20poly1305 = "0.10"
rand = "0.8"
serde = { version = "1", features = ["derive"] }
serde_json = "1"
chrono = "0.4"
thiserror = "1"
