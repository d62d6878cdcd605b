[package]
name = "blockifier"
version = "0.1.0"
edition = "2021"
publish = false

[dependencies]
cairo-felt = "=0.8.7"
cairo-lang-casm = "=2.1.2"
cairo-lang-starknet = "=2.1.2"
cairo-vm = "=3.2.0"
derive_more = "=0.99.20"
hashbrown = "=0.14.5"
indexmap = { version = "=1.9.3", features = ["serde"] }
itertools = "=0.10.5"
num-bigint = "=0.4.8"
parity-scale-codec = { version = "=3.7.5", features = ["derive"] }
scale-info = { version = "=2.11.6", features = ["derive"] }
serde = { version = "=1.0.229", features = ["derive"] }
serde_json = "=1.0.154"
sp-arithmetic = "=29.0.0"
starknet_api = "=0.4.1"
