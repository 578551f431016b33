[package]
name = "ship_lib"
version = "0.1.0"
edition = "2021"
publish = false

[dependencies]
aes-gcm = "=0.10.3"
hkdf = "=0.12.4"
sha2 = "=0.10.9"
base64 = "=0.22.1"
rand = "=0.9.5"
mls-rs = { version = "=0.56.0", features = ["custom_proposal", "private_message", "by_ref_proposal", "last_resort_key_package_ext"] }
mls-rs-core = "=0.27.0"
mls-rs-codec = "=0.7.0"
mls-rs-crypto-rustcrypto = "=0.22.1"
tokio = { version = "=1.54.1", features = ["sync", "rt", "macros"] }
anyhow = "=1.0.104"
log = "=0.4.34"
serde = { version = "=1.0.229", features = ["derive"] }
serde_json = "=1.0.154"
