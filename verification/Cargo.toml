[package]
name = "transfer_policy"
version = "0.1.0"
edition = "2021"
publish = false

[dependencies]
anchor-lang = "*"
anchor-spl = "*"
spl-tlv-account-resolution = "*"
spl-transfer-hook-interface = "*"
spl-type-length-value = "*"
