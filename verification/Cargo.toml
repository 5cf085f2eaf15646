[package]
name = "xmtp_mls"
version = "0.1.0"
edition = "2021"
publish = false

[dependencies]
chrono = "0.4"
futures = "0.3"
hex = "0.4"
hkdf = "0.12"
hmac = "0.12"
parking_lot = "0.12"
sha2 = "0.10"
thiserror = "2"
tls_codec = "0.4"
tokio = { version = "1", features = ["sync", "time", "rt", "macros"] }
tokio-stream = { version = "0.1", features = ["sync"] }
tracing = "0.1"
zeroize = "1"
