[package]
name = "bitcoin_funding"
version = "0.1.0"
edition = "2021"
publish = false

[dependencies]
bdk_wallet = "2"
bip39 = "2"
bitcoin = "0.32"
cdk = { version = "*", default-features = false, features = ["wallet"] }
cdk-sqlite = { version = "*", default-features = false, features = ["wallet"] }
ldk-node = "*"
qrcode = { version = "0.14", default-features = false }
reqwest = { version = "0.12", default-features = false, features = ["blocking", "rustls-tls"] }
secrecy = "0.10"
serde = { version = "1", features = ["derive"] }
serde_json = "1"
tokio = { version = "1", features = ["rt-multi-thread", "time"] }
zeroize = "1"
