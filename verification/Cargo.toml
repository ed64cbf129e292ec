[package]
name = "quickshare_core"
version = "0.1.0"
edition = "2021"
publish = false

[dependencies]
p256 = { version = "*", features = ["ecdh"] }
sha2 = "*"
hmac = "*"
hkdf = "*"
aes = "*"
cbc = { version = "*", features = ["alloc", "block-padding"] }
rand = "*"
zeroize = "*"
base64 = "*"
tokio = { version = "*", features = ["rt-multi-thread", "net", "sync", "io-util", "macros", "time"] }
mdns-sd = "*"
get_if_addrs = "*"
serde = { version = "*", features = ["derive"] }
