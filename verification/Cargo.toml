[package]
name = "sg-p2p-nft-trade"
version = "0.1.0"
edition = "2021"
publish = false

[dependencies]
cosmwasm-std = "1.5"
cw2 = "1.1"
cw721 = "0.15"
cw721-base = { version = "0.15", features = ["library"] }
sg-std = "*"
thiserror = "1"
serde = { version = "1", features = ["derive"] }
