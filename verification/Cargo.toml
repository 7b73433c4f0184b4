[package]
name = "fgtw_fleet"
version = "0.1.0"
edition = "2021"
publish = false

[dependencies]
blake3 = "*"
bytes = "1"
chacha20poly1305 = "*"
default-net = "*"
fgtw = "*"
futures-util = "0.3"
ihi = "*"
log = "0.4"
rand = "0.8"
tohu = "*"
tokio = { version = "1", features = ["rt-multi-thread", "macros", "sync", "time"] }
tokio-tungstenite = "*"
vsf = "*"

[dev-dependencies]
ed25519-dalek = "2"
sodiumoxide = "0.2"
