[package]
name = "consensus_enclave"
version = "0.1.0"
edition = "2021"
publish = false

[dependencies]
blake2 = "0.10"
chrono = "0.4"
crossbeam-channel = "0.5"
ed25519-dalek = { version = "2", features = ["rand_core"] }
failure = "0.1"
lazy_static = "1"
lmdb = "0.8"
mc-rand = "1"
prometheus = "0.13"
prost = "0.13"
rand_core = "0.6"
rand_hc = "0.3"
retry = "1"
serde_json = "1"
x25519-dalek = "2"
