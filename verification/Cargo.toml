[package]
name = "amm_core"
version = "0.1.0"
edition = "2021"
publish = false

[dependencies]
cosmwasm-std = "1.5"
cw20 = "1"
cw2 = "1"
serde = "1"
schemars = "0.8"
