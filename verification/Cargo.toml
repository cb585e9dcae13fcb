[package]
name = "tpm_provider"
version = "0.1.0"
edition = "2021"
publish = false

[dependencies]
hex = "*"
zeroize = "*"
log = "*"
derivative = "*"
parsec-interface = "*"
tss-esapi = "*"
