[package]
name = "nft_mint"
version = "0.1.0"
edition = "2021"
publish = false

[dependencies]
elrond-wasm = "0.30"
