[package]
name = "clipygo-plugin-relay"
version = "0.1.0"
edition = "2021"
publish = false

[dependencies]
base64 = "0.22"
chacha20poly1305 = "0.10"
dirs = "6"
futures-util = "0.3"
hex = "0.4"
hmac = "0.12"
native-tls = "0.2"
rand = "0.8"
reqwest = { version = "0.12", features = ["json"] }
serde = { version = "1", features = ["derive"] }
serde_json = { version = "1", features = ["preserve_order"] }
sha2 = "0.10"
tokio = { version = "1", features = ["full"] }
tokio-tungstenite = { version = "0.26", features = ["native-tls"] }
x25519-dalek = { version = "2", features = ["static_secrets"] }
