[package]
name = "web3_university"
version = "0.1.0"
edition = "2021"
publish = false

[dependencies]
sha2 = "=0.10.9"
candid = "=0.10.37"
ic-cdk = "=0.20.3"
serde = "=1.0.229"
