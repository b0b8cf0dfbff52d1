[package]
name = "nostr_core"
version = "0.1.0"
edition = "2021"
publish = false

[dependencies]
secp256k1 = { version = "=0.33.1", features = ["global-context"] }
chacha20 = "=0.10.2"
hmac = "=0.13.0"
sha2 = "=0.11.0"
base64 = "=0.23.1"
bech32 = "=0.12.0"
subtle = "=2.6.1"
rand = "=0.10.3"
nostr-sdk = "=0.45.4"

[dev-dependencies]
nostr = { version = "=0.45.5", features = ["nip44"] }
