[package]
name = "iapyx"
version = "0.1.0"
edition = "2021"
publish = false

[dependencies]
bech32 = "=0.7.3"
bip39 = { version = "=2.2.2", features = ["rand"] }
structopt = "=0.3.26"
thiserror = "=1.0.69"
