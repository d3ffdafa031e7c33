[package]
name = "eth_wrapper"
version = "0.1.0"
edition = "2021"
publish = false

[dependencies]
ethers-core = "*"
ethabi = "*"
polywrap-wasm-rs = "*"
serde = "*"
serde_json = "*"
thiserror = "*"

[dev-dependencies]
hex = "*"
