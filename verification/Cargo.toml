[package]
name = "mef-26"
version = "0.1.1"
edition = "2021"
publish = false

[dependencies]
aes-gcm = "=0.11.1"
aes-gcm-siv = "=0.12.1"
chacha20poly1305 = "=0.11.0"
hkdf = "=0.13.0"
sha2 = "=0.11.1"
blake3 = { version = "=1.8.7", features = ["pure"] }
subtle = "=2.6.1"
getrandom = { version = "=0.4.3", features = ["sys_rng"] }
x25519-dalek = { version = "=3.0.0", features = ["static_secrets"] }
ed25519-dalek = "=3.0.0"
ml-kem = "=0.3.4"
kem = "=0.3.0"
zeroize = "=1.9.1"
thiserror = "=2.0.21"
