[package]
name = "ohmcp"
version = "0.1.0"
edition = "2021"
publish = false

[dependencies]
anyhow = "1"
bytes = "1"
chacha20poly1305 = "0.10"
hdrhistogram = "7"
hmac = "0.12"
libc = "0.2"
lz4_flex = "0.11"
mimalloc = "0.1"
rand = "0.8"
serde = { version = "1", features = ["derive"] }
serde_json = "1"
sha2 = "0.10"
thiserror = "1"
tokio = { version = "1", features = ["full"] }
tracing = "0.1"
tracing-subscriber = "0.3"
x25519-dalek = "2"
