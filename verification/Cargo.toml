[package]
name = "interchain_core"
version = "0.1.0"
edition = "2021"
publish = false

[dependencies]
sha3 = "0.10"
bech32 = "0.9"
cw-utils = "1"
