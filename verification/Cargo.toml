[package]
name = "voyager_core"
version = "0.1.0"
edition = "2021"
publish = false

[dependencies]
prost = "=0.12.6"
sha3 = "=0.10.9"
serde = { version = "=1.0.229", features = ["derive"] }
serde_json = "=1.0.154"
thiserror = "=1.0.69"
tracing = "=0.1.44"
futures = "=0.3.34"
cosmwasm-std = { version = "=1.5.11", features = ["stargate"] }
cosmwasm-schema = "=1.5.11"
cw-controllers = "=1.1.2"
