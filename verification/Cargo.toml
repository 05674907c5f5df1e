[package]
name = "escrow_gateway"
version = "0.1.0"
edition = "2021"
publish = false

[dependencies]
cosmwasm-std = { version = "=0.16.7", features = ["stargate"] }
cw0 = "=0.9.1"
cw2 = "=0.9.2"
cw20 = "=0.9.1"
schemars = "=0.8.22"
serde = { version = "=1.0.229", features = ["derive"] }
