[package]
name = "cw_ics20_hook"
version = "0.1.0"
edition = "2021"
publish = false

[dependencies]
cosmwasm-schema = "=2.3.5"
cosmwasm-std = "=2.3.5"
cw-storage-plus = "=2.0.0"
cw-utils = "=2.0.0"
cw2 = "=2.0.0"
kujira = "=1.3.0"
schemars = "=0.8.22"
serde = "=1.0.229"
