[package]
name = "evm_types"
version = "0.1.0"
edition = "2021"
publish = false

[dependencies]
sp-core = "=21.0.0"
ethereum = { version = "=0.14.0", features = ["with-serde"] }
ethereum-types = "=0.14.1"
jsonrpsee = { version = "=0.16.3", features = ["jsonrpsee-types"] }
serde = { version = "=1.0.229", features = ["derive"] }
thiserror = "=1.0.69"
