[package]
name = "selia"
version = "0.1.0"
edition = "2021"
publish = false

[dependencies]
crossbeam-channel = "0.5"
rand = "0.10"
sha2 = "0.11"
serde_json = "1"
scopeguard = "1"
