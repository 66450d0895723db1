[package]
name = "nostr_wallet_connect"
version = "0.2.3"
edition = "2021"
publish = false

[dependencies]
anyhow = "1"
cln-plugin = "0.1"
cln-rpc = "0.1"
dirs = "5"
futures = "0.3"
hex = "0.4"
lightning-invoice = "0.31"
log = "0.4"
nostr-sdk = { version = "0.44", features = ["nip04", "nip47"] }
serde_json = "1"
thiserror = "1"
tokio = { version = "1", features = ["full"] }
tracing = "0.1"
tungstenite = { version = "0.21", features = ["rustls-tls-webpki-roots"] }
