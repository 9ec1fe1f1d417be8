[package]
name = "nexusnet"
version = "0.1.0"
edition = "2021"
publish = false

[dependencies]
aes-gcm = "=0.10.3"
brotli = { version = "=9.1.1", features = ["portable-float"] }
bytes = "=1.12.1"
chacha20poly1305 = "=0.10.1"
flate2 = "=1.1.10"
hkdf = "=0.12.4"
rand_core = { version = "=0.6.4", features = ["getrandom"] }
serde = { version = "=1.0.229", features = ["derive"] }
sha2 = "=0.10.9"
subtle = "=2.6.1"
thiserror = "=2.0.21"
tracing = "=0.1.44"
tracing-subscriber = { version = "=0.3.23", features = ["env-filter", "json"] }
zeroize = { version = "=1.9.1", features = ["derive"] }
zstd = "=0.13.4"
