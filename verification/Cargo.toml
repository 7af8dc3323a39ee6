[package]
name = "account_state"
version = "0.1.0"
edition = "2021"

[dependencies]
miden-crypto = "=0.21.4"
async-trait = "0.1"
