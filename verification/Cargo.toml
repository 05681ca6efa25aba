[package]
name = "utxo_tx"
version = "0.1.0"
edition = "2021"
publish = false

[dependencies]
rust-crypto = "0.2"
bitcoincash-addr = "0.5"
rand = "0.8"
