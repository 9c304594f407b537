[package]
name = "relay"
version = "0.1.0"
edition = "2021"
publish = false

[dependencies]
openmls = "0.6"
openmls_rust_crypto = "0.3"
openmls_basic_credential = "0.3"
openmls_traits = "0.3"
tls_codec = "0.4"
curve25519-dalek = { version = "4", features = ["rand_core"] }
aes-gcm = "0.10"
hkdf = "0.12"
sha2 = "0.10"
rand = "0.8"
rumqttc = "0.24"
anyhow = "1"
chrono = "0.4"
env_logger = "0.11"

[dev-dependencies]
ciborium = "0.2"
